//! What each check comes to, told from the questions and answers themselves.
//!
//! Each law here takes a record in which every question was granted, up to where the check ends. It
//! says which questions those are, and what the check then gives: for sequences of every kind, and
//! for all that is not one.

use vstd::prelude::*;

use crate::analysis::{
    ClarityCostFunction, FunctionType, NativeFunctions, SimpleNativeFunction, TypedNativeFunction,
    TypingContext,
};
use crate::determinism::same_question;
use crate::errors::{failure, CheckError, CheckErrors, Diagnostic};
use crate::record::{
    applied, charged, compared, cost_added, joined, list_admitted, native_found, native_typed,
    noted, option_admitted, serialized_size, sized, type_parsed, typed, typed_as, user_found,
    visited, Exchange,
};
use crate::representations::{
    ClarityName, ClarityVersion, StacksEpochId, SymbolicExpression, SymbolicExpressionType, Value,
};
use crate::rules::{
    append_rule, as_max_len_rule, concat_rule, element_at_rule, filter_rule, fold_rule,
    from_consensus_buff_rule, function_rule, index_of_rule, len_rule, replace_at_rule, slice_rule,
    to_consensus_buff_rule,
};
use crate::run::Run;
use crate::signatures::{
    ascii_type, buffer_type, lemma_buffer_length, lemma_buffer_length_by_value, lemma_utf8_length,
    lemma_utf8_length_by_value, length_of, list_type, optional_type, unit_of, utf8_type,
    BufferLength, ListTypeData, SequenceSubtype, StringSubtype, StringUTF8Length, TypeSignature,
};
use crate::typing::same_kind;

verus! {

/// The record has `exchange` at `i`.
pub open spec fn holds(log: Seq<Exchange>, i: int, exchange: Exchange) -> bool {
    0 <= i < log.len() && log[i] == exchange
}

/// At `i`, `expr` was found to be of type `found`.
pub open spec fn gave_type(
    log: Seq<Exchange>,
    i: int,
    expr: SymbolicExpression,
    context: TypingContext,
    found: TypeSignature,
) -> bool {
    holds(log, i, Exchange::TypeCheck { expr, context, reply: Ok(found) })
}

/// At `i`, `expr` was taken to be of type `expected`.
pub open spec fn took_as(
    log: Seq<Exchange>,
    i: int,
    expr: SymbolicExpression,
    context: TypingContext,
    expected: TypeSignature,
) -> bool {
    &&& 0 <= i < log.len()
    &&& match log[i] {
        Exchange::TypeCheckExpects { expr: e, context: c, expected: t, reply: Ok(_) } => e == expr
            && c == context && t == expected,
        _ => false,
    }
}

/// At `i`, working through a sequence was charged, for an input of size `input`.
pub open spec fn charged_iterating(log: Seq<Exchange>, i: int, input: u64) -> bool {
    holds(
        log,
        i,
        Exchange::RuntimeCost {
            function: ClarityCostFunction::AnalysisIterableFunc,
            input,
            reply: Ok(()),
        },
    )
}

/// At `i`, optional values of type `inner` were admitted.
pub open spec fn admitted_option(log: Seq<Exchange>, i: int, inner: TypeSignature) -> bool {
    holds(log, i, Exchange::AdmitOption { inner, reply: Ok(()) })
}

/// At `i`, lists of up to `max_len` items of type `entry` were admitted.
pub open spec fn admitted_list(
    log: Seq<Exchange>,
    i: int,
    entry: TypeSignature,
    max_len: u32,
) -> bool {
    holds(log, i, Exchange::AdmitList { entry, max_len, reply: Ok(()) })
}

/// At `i`, `function` was found to return `returned` for arguments of the types `inputs`.
pub open spec fn returned_for(
    log: Seq<Exchange>,
    i: int,
    function: FunctionType,
    inputs: Seq<TypeSignature>,
    context: TypingContext,
    returned: TypeSignature,
) -> bool {
    holds(
        log,
        i,
        Exchange::CheckArgs {
            function,
            args: inputs,
            epoch: context.epoch,
            version: context.clarity_version,
            reply: Ok(returned),
        },
    )
}

/// The greatest length that a sequence of the kind of `items` may have: as many bytes as a value,
/// and a fourth of that in Unicode characters. The length of a list has no limit of its own.
pub open spec fn greatest_length(items: SequenceSubtype) -> u32 {
    match items {
        SequenceSubtype::ListType(_) => u32::MAX,
        SequenceSubtype::BufferType(_) => 1_048_576,
        SequenceSubtype::StringType(StringSubtype::ASCII(_)) => 1_048_576,
        SequenceSubtype::StringType(StringSubtype::UTF8(_)) => 262_144,
    }
}

/// A length may be as great as the values of its kind allow, and no greater.
pub proof fn law_lengths_have_limits(n: u32)
    ensures
        BufferLength::fits(n) <==> n <= 1_048_576,
        StringUTF8Length::fits(n) <==> n <= 262_144,
{
}

/// A type is built of what its name says.
pub proof fn law_types_are_what_they_are_called(entry: TypeSignature, n: u32)
    ensures
        optional_type(entry) == TypeSignature::OptionalType(Box::new(entry)),
        list_type(entry, n) == TypeSignature::SequenceType(
            SequenceSubtype::ListType(ListTypeData { entry_type: Box::new(entry), max_len: n }),
        ),
        match buffer_type(n) {
            TypeSignature::SequenceType(SequenceSubtype::BufferType(len)) => len.value() == n,
            _ => false,
        },
        match ascii_type(n) {
            TypeSignature::SequenceType(
                SequenceSubtype::StringType(StringSubtype::ASCII(len)),
            ) => len.value() == n,
            _ => false,
        },
        match utf8_type(n) {
            TypeSignature::SequenceType(
                SequenceSubtype::StringType(StringSubtype::UTF8(len)),
            ) => len.value() == n,
            _ => false,
        },
{
    broadcast use lemma_buffer_length, lemma_utf8_length;

}

/// One item of a list is of the type of its entries. One item of a buffer or of a string is a
/// buffer or string of its kind, of length one.
pub proof fn law_items_are_of_their_kind(items: SequenceSubtype)
    ensures
        match items {
            SequenceSubtype::ListType(list) => {
                &&& unit_of(items) == *list.entry_type
                &&& length_of(items) == list.max_len
            },
            _ => match unit_of(items) {
                TypeSignature::SequenceType(one) => {
                    &&& same_kind(one, items)
                    &&& length_of(one) == 1
                },
                _ => false,
            },
        },
        match items {
            SequenceSubtype::ListType(_) => true,
            SequenceSubtype::BufferType(len) => length_of(items) == len.value(),
            SequenceSubtype::StringType(StringSubtype::ASCII(len)) => length_of(items)
                == len.value(),
            SequenceSubtype::StringType(StringSubtype::UTF8(len)) => length_of(items)
                == len.value(),
        },
{
    broadcast use lemma_buffer_length, lemma_utf8_length;

}

/// A failure for a reason is about that reason, about no expression, and shown as that reason.
pub proof fn law_failures_show_their_reason(reason: CheckErrors)
    ensures
        *failure(reason).err == reason,
        failure(reason).expressions is None,
        failure(reason).diagnostic == Diagnostic::Unplaced(Box::new(reason)),
{
}

/// An answer is read where just that was asked, and then as it was given.
pub open spec fn read_whole<T>(
    log: Seq<Exchange>,
    at: int,
    asked: Exchange,
    reply: T,
    run: Run<T>,
) -> bool {
    &&& holds(log, at, asked) ==> run == Run::Done(reply, at + 1)
    &&& run !is Off ==> 0 <= at < log.len() && same_question(log[at], asked)
}

/// The same of an answer that may be a refusal with an error.
pub open spec fn read_or_error<T>(
    log: Seq<Exchange>,
    at: int,
    asked: Exchange,
    reply: Result<T, CheckError>,
    run: Run<T>,
) -> bool {
    &&& holds(log, at, asked) ==> match reply {
        Ok(value) => run == Run::Done(value, at + 1),
        Err(error) => run == Run::<T>::Failed(error, at + 1),
    }
    &&& run !is Off ==> 0 <= at < log.len() && same_question(log[at], asked)
}

/// The same of an answer that may be a refusal for a reason alone.
pub open spec fn read_or_reason<T>(
    log: Seq<Exchange>,
    at: int,
    asked: Exchange,
    reply: Result<T, CheckErrors>,
    run: Run<T>,
) -> bool {
    &&& holds(log, at, asked) ==> match reply {
        Ok(value) => run == Run::Done(value, at + 1),
        Err(reason) => run == Run::<T>::Failed(failure(reason), at + 1),
    }
    &&& run !is Off ==> 0 <= at < log.len() && same_question(log[at], asked)
}

/// Every answer is read where just that was asked, and then as it was given. A refusal is never
/// read as anything else.
pub proof fn law_answers_are_read_as_given(log: Seq<Exchange>, at: int, asked: Exchange)
    ensures
        match asked {
            Exchange::RuntimeCost { function, input, reply } => read_or_error(
                log,
                at,
                asked,
                reply,
                charged(log, at, function, input),
            ),
            Exchange::AddCost { cost, reply } => read_or_error(
                log,
                at,
                asked,
                reply,
                cost_added(log, at, cost),
            ),
            Exchange::TypecheckCost { left, right, reply } => read_or_error(
                log,
                at,
                asked,
                reply,
                compared(log, at, left, right),
            ),
            Exchange::LookupNative { name, version, reply } => read_whole(
                log,
                at,
                asked,
                reply,
                native_found(log, at, name, version),
            ),
            Exchange::TypeNative { function, reply } => read_or_reason(
                log,
                at,
                asked,
                reply,
                native_typed(log, at, function),
            ),
            Exchange::LookupUser { name, reply } => read_whole(
                log,
                at,
                asked,
                reply,
                user_found(log, at, name),
            ),
            Exchange::TypeCheck { expr, context, reply } => read_or_error(
                log,
                at,
                asked,
                reply,
                typed(log, at, expr, context),
            ),
            Exchange::TypeCheckExpects { expr, context, expected, reply } => read_or_error(
                log,
                at,
                asked,
                reply,
                typed_as(log, at, expr, context, expected),
            ),
            Exchange::SetType { expr, found, reply } => read_or_error(
                log,
                at,
                asked,
                reply,
                noted(log, at, expr, found),
            ),
            Exchange::CheckArgs { function, args, epoch, version, reply } => read_or_error(
                log,
                at,
                asked,
                reply,
                applied(log, at, function, args, epoch, version),
            ),
            Exchange::VisitArg { function, arg, index, accumulated, reply } => read_whole(
                log,
                at,
                asked,
                reply,
                visited(log, at, function, arg, index, accumulated),
            ),
            Exchange::LeastSupertype { epoch, left, right, reply } => read_or_reason(
                log,
                at,
                asked,
                reply,
                joined(log, at, epoch, left, right),
            ),
            Exchange::AdmitList { entry, max_len, reply } => read_or_reason(
                log,
                at,
                asked,
                reply,
                list_admitted(log, at, entry, max_len),
            ),
            Exchange::AdmitOption { inner, reply } => read_or_reason(
                log,
                at,
                asked,
                reply,
                option_admitted(log, at, inner),
            ),
            Exchange::TypeSize { of, reply } => read_or_reason(
                log,
                at,
                asked,
                reply,
                sized(log, at, of),
            ),
            Exchange::MaxSerializedSize { of, reply } => read_or_reason(
                log,
                at,
                asked,
                reply,
                serialized_size(log, at, of),
            ),
            Exchange::ParseType { epoch, expr, reply } => read_or_reason(
                log,
                at,
                asked,
                reply,
                type_parsed(log, at, epoch, expr),
            ),
        },
{
}

/// Looking a function up is charged first. A function of the language that is typed by what it
/// takes and returns is found. One that has a rule of its own is refused by name, without asking
/// the contract.
pub proof fn law_functions_of_the_language_are_found(
    log: Seq<Exchange>,
    at: int,
    name: ClarityName,
    version: ClarityVersion,
    native: NativeFunctions,
    typing: TypedNativeFunction,
)
    requires
        holds(
            log,
            at,
            Exchange::RuntimeCost {
                function: ClarityCostFunction::AnalysisLookupFunction,
                input: 0,
                reply: Ok(()),
            },
        ),
        holds(log, at + 1, Exchange::LookupNative { name, version, reply: Some(native) }),
        holds(log, at + 2, Exchange::TypeNative { function: native, reply: Ok(typing) }),
    ensures
        match typing {
            TypedNativeFunction::Simple(SimpleNativeFunction(function)) => function_rule(
                log,
                at,
                name,
                version,
            ) == Run::Done(function, at + 3),
            TypedNativeFunction::Special => function_rule(log, at, name, version) == Run::<
                FunctionType,
            >::Failed(failure(CheckErrors::IllegalOrUnknownFunctionApplication(name)), at + 3),
        },
{
}

/// Where the language has no function of a name, the one that the contract defines is found, and
/// where it defines none the name is refused.
pub proof fn law_functions_of_the_contract_are_found(
    log: Seq<Exchange>,
    at: int,
    name: ClarityName,
    version: ClarityVersion,
    defined: Option<FunctionType>,
)
    requires
        holds(
            log,
            at,
            Exchange::RuntimeCost {
                function: ClarityCostFunction::AnalysisLookupFunction,
                input: 0,
                reply: Ok(()),
            },
        ),
        holds(log, at + 1, Exchange::LookupNative { name, version, reply: None }),
        holds(log, at + 2, Exchange::LookupUser { name, reply: defined }),
    ensures
        match defined {
            Some(function) => function_rule(log, at, name, version) == Run::Done(function, at + 3),
            None => function_rule(log, at, name, version) == Run::<FunctionType>::Failed(
                failure(CheckErrors::IllegalOrUnknownFunctionApplication(name)),
                at + 3,
            ),
        },
{
}

/// `filter` takes a sequence of any kind. Where the function that its first argument names gives a
/// truth value for one item, `filter` gives the type of the sequence; where it gives anything else,
/// that is refused. What is no sequence is refused before the function is applied.
pub proof fn law_filter_takes_any_sequence(
    log: Seq<Exchange>,
    at: int,
    args: Seq<SymbolicExpression>,
    context: TypingContext,
    version: ClarityVersion,
    name: ClarityName,
    function: FunctionType,
    start: int,
    found: TypeSignature,
)
    requires
        args.len() == 2,
        args[0].expr == SymbolicExpressionType::Atom(name),
        function_rule(log, at, name, version) == Run::Done(function, start),
        charged_iterating(log, start, 0),
        gave_type(log, start + 1, args[1], context, found),
    ensures
        match found {
            TypeSignature::SequenceType(items) => forall|verdict: TypeSignature|
                #[trigger] returned_for(
                    log,
                    start + 2,
                    function,
                    seq![unit_of(items)],
                    context,
                    verdict,
                ) ==> filter_rule(log, at, args, context, version) == (if verdict
                    == TypeSignature::BoolType {
                    Run::Done(found, start + 3)
                } else {
                    Run::Failed(
                        failure(
                            CheckErrors::TypeError(
                                Box::new(TypeSignature::BoolType),
                                Box::new(verdict),
                            ),
                        ),
                        start + 3,
                    )
                }),
            _ => filter_rule(log, at, args, context, version) == Run::<TypeSignature>::Failed(
                failure(CheckErrors::ExpectedSequence(Box::new(found))),
                start + 2,
            ),
        },
{
}

/// `fold` takes a sequence of any kind. It gives what the function that its first argument names
/// returns for an item and its own result, once that has taken an item and the initial value. What
/// is no sequence is refused before the initial value is looked at.
pub proof fn law_fold_takes_any_sequence(
    log: Seq<Exchange>,
    at: int,
    args: Seq<SymbolicExpression>,
    context: TypingContext,
    version: ClarityVersion,
    name: ClarityName,
    function: FunctionType,
    start: int,
    found: TypeSignature,
    initial: TypeSignature,
    returned: TypeSignature,
    given: TypeSignature,
)
    requires
        args.len() == 3,
        args[0].expr == SymbolicExpressionType::Atom(name),
        function_rule(log, at, name, version) == Run::Done(function, start),
        charged_iterating(log, start, 0),
        gave_type(log, start + 1, args[1], context, found),
    ensures
        match found {
            TypeSignature::SequenceType(items) => gave_type(
                log,
                start + 2,
                args[2],
                context,
                initial,
            ) && returned_for(
                log,
                start + 3,
                function,
                seq![unit_of(items), initial],
                context,
                returned,
            ) && returned_for(
                log,
                start + 4,
                function,
                seq![unit_of(items), returned],
                context,
                given,
            ) ==> fold_rule(log, at, args, context, version) == Run::Done(given, start + 5),
            _ => fold_rule(log, at, args, context, version) == Run::<TypeSignature>::Failed(
                failure(CheckErrors::ExpectedSequence(Box::new(found))),
                start + 2,
            ),
        },
{
}

/// `filter` and `fold` need a name to apply, and fail as the looking up of that name does.
pub proof fn law_applying_needs_a_function(
    log: Seq<Exchange>,
    at: int,
    args: Seq<SymbolicExpression>,
    context: TypingContext,
    version: ClarityVersion,
)
    requires
        args.len() == 2 || args.len() == 3,
    ensures
        ({
            let run = if args.len() == 2 {
                filter_rule(log, at, args, context, version)
            } else {
                fold_rule(log, at, args, context, version)
            };
            match args[0].expr {
                SymbolicExpressionType::Atom(name) => match function_rule(log, at, name, version) {
                    Run::Failed(error, end) => run == Run::<TypeSignature>::Failed(error, end),
                    _ => true,
                },
                _ => run == Run::<TypeSignature>::Failed(
                    failure(CheckErrors::NonFunctionApplication),
                    at,
                ),
            }
        }),
{
}

/// `concat` joins two buffers, or two strings of one character set, wherever a sequence of that
/// kind may be as long as both together. It is refused as too large only where it may not be, and
/// as an overflow only where both lengths together are no length at all.
pub proof fn law_concat_joins_what_fits(
    log: Seq<Exchange>,
    at: int,
    args: Seq<SymbolicExpression>,
    context: TypingContext,
    left: SequenceSubtype,
    right: SequenceSubtype,
)
    requires
        args.len() == 2,
        gave_type(log, at, args[0], context, TypeSignature::SequenceType(left)),
        gave_type(log, at + 1, args[1], context, TypeSignature::SequenceType(right)),
        charged_iterating(log, at + 2, 0),
        holds(
            log,
            at + 3,
            Exchange::TypecheckCost {
                left: TypeSignature::SequenceType(left),
                right: TypeSignature::SequenceType(right),
                reply: Ok(()),
            },
        ),
        same_kind(left, right),
        !(left is ListType),
    ensures
        length_of(left) + length_of(right) <= greatest_length(left) ==> match concat_rule(
            log,
            at,
            args,
            context,
        ) {
            Run::Done(TypeSignature::SequenceType(whole), end) => {
                &&& same_kind(whole, left)
                &&& length_of(whole) == length_of(left) + length_of(right)
                &&& end == at + 4
            },
            _ => false,
        },
        greatest_length(left) < length_of(left) + length_of(right) <= u32::MAX ==> concat_rule(
            log,
            at,
            args,
            context,
        ) == Run::<TypeSignature>::Failed(failure(CheckErrors::ValueTooLarge), at + 4),
        length_of(left) + length_of(right) > u32::MAX ==> concat_rule(log, at, args, context)
            == Run::<TypeSignature>::Failed(failure(CheckErrors::MaxLengthOverflow), at + 4),
{
    broadcast use lemma_buffer_length, lemma_utf8_length;

    law_lengths_have_limits((length_of(left) + length_of(right)) as u32);
}

/// `concat` joins two lists to one of the type that the items of both have in common, as long as
/// both together, wherever such a list may be formed. It is refused only where both lengths
/// together are no length at all.
pub proof fn law_concat_joins_lists(
    log: Seq<Exchange>,
    at: int,
    args: Seq<SymbolicExpression>,
    context: TypingContext,
    left: ListTypeData,
    right: ListTypeData,
    common: TypeSignature,
)
    requires
        args.len() == 2,
        gave_type(
            log,
            at,
            args[0],
            context,
            TypeSignature::SequenceType(SequenceSubtype::ListType(left)),
        ),
        gave_type(
            log,
            at + 1,
            args[1],
            context,
            TypeSignature::SequenceType(SequenceSubtype::ListType(right)),
        ),
        charged_iterating(log, at + 2, 0),
        holds(
            log,
            at + 3,
            Exchange::TypecheckCost {
                left: TypeSignature::SequenceType(SequenceSubtype::ListType(left)),
                right: TypeSignature::SequenceType(SequenceSubtype::ListType(right)),
                reply: Ok(()),
            },
        ),
        holds(
            log,
            at + 4,
            Exchange::LeastSupertype {
                epoch: StacksEpochId::Epoch21,
                left: *left.entry_type,
                right: *right.entry_type,
                reply: Ok(common),
            },
        ),
    ensures
        left.max_len + right.max_len > u32::MAX ==> concat_rule(log, at, args, context) == Run::<
            TypeSignature,
        >::Failed(failure(CheckErrors::MaxLengthOverflow), at + 5),
        forall|n: u32|
            n == left.max_len + right.max_len && #[trigger] admitted_list(log, at + 5, common, n)
                ==> concat_rule(log, at, args, context) == Run::Done(
                TypeSignature::SequenceType(
                    SequenceSubtype::ListType(
                        ListTypeData { entry_type: Box::new(common), max_len: n },
                    ),
                ),
                at + 6,
            ),
{
}

/// `concat` refuses two sequences of different kinds, naming both types in order, and refuses
/// anything that is no sequence, naming the type on the left.
pub proof fn law_concat_needs_one_kind(
    log: Seq<Exchange>,
    at: int,
    args: Seq<SymbolicExpression>,
    context: TypingContext,
    left: TypeSignature,
    right: TypeSignature,
)
    requires
        args.len() == 2,
        gave_type(log, at, args[0], context, left),
        gave_type(log, at + 1, args[1], context, right),
        charged_iterating(log, at + 2, 0),
        holds(log, at + 3, Exchange::TypecheckCost { left, right, reply: Ok(()) }),
    ensures
        match (left, right) {
            (TypeSignature::SequenceType(l), TypeSignature::SequenceType(r)) => !same_kind(l, r)
                ==> concat_rule(log, at, args, context) == Run::<TypeSignature>::Failed(
                failure(CheckErrors::TypeError(Box::new(left), Box::new(right))),
                at + 4,
            ),
            _ => concat_rule(log, at, args, context) == Run::<TypeSignature>::Failed(
                failure(CheckErrors::ExpectedSequence(Box::new(left))),
                at + 4,
            ),
        },
{
}

/// `append` takes any list and any item whose types have something in common. It gives a list of
/// that, longer by one, wherever such a list may be formed, and is refused only where the list can
/// be no longer.
pub proof fn law_append_takes_any_list(
    log: Seq<Exchange>,
    at: int,
    args: Seq<SymbolicExpression>,
    context: TypingContext,
    list: ListTypeData,
    item: TypeSignature,
    common: TypeSignature,
)
    requires
        args.len() == 2,
        charged_iterating(log, at, 0),
        gave_type(
            log,
            at + 1,
            args[0],
            context,
            TypeSignature::SequenceType(SequenceSubtype::ListType(list)),
        ),
        gave_type(log, at + 2, args[1], context, item),
        holds(
            log,
            at + 3,
            Exchange::TypecheckCost { left: *list.entry_type, right: item, reply: Ok(()) },
        ),
        holds(
            log,
            at + 4,
            Exchange::LeastSupertype {
                epoch: StacksEpochId::Epoch21,
                left: *list.entry_type,
                right: item,
                reply: Ok(common),
            },
        ),
    ensures
        list.max_len == u32::MAX ==> append_rule(log, at, args, context) == Run::<
            TypeSignature,
        >::Failed(failure(CheckErrors::MaxLengthOverflow), at + 5),
        forall|n: u32|
            n == list.max_len + 1 && #[trigger] admitted_list(log, at + 5, common, n)
                ==> append_rule(log, at, args, context) == Run::Done(
                TypeSignature::SequenceType(
                    SequenceSubtype::ListType(
                        ListTypeData { entry_type: Box::new(common), max_len: n },
                    ),
                ),
                at + 6,
            ),
{
}

/// `append` refuses anything but a list, before it looks at the item.
pub proof fn law_append_needs_a_list(
    log: Seq<Exchange>,
    at: int,
    args: Seq<SymbolicExpression>,
    context: TypingContext,
    found: TypeSignature,
)
    requires
        args.len() == 2,
        charged_iterating(log, at, 0),
        gave_type(log, at + 1, args[0], context, found),
        match found {
            TypeSignature::SequenceType(SequenceSubtype::ListType(_)) => false,
            _ => true,
        },
    ensures
        append_rule(log, at, args, context) == Run::<TypeSignature>::Failed(
            failure(CheckErrors::ExpectedListApplication),
            at + 2,
        ),
{
}

/// The length of `as-max-len?` is `n`: it was given as a literal, charged for and noted.
pub open spec fn length_noted(
    log: Seq<Exchange>,
    at: int,
    args: Seq<SymbolicExpression>,
    n: u128,
    size: u32,
) -> bool {
    &&& args.len() == 2
    &&& args[1].expr == SymbolicExpressionType::LiteralValue(Value::UInt(n))
    &&& holds(log, at, Exchange::TypeSize { of: TypeSignature::UIntType, reply: Ok(size) })
    &&& holds(
        log,
        at + 1,
        Exchange::RuntimeCost {
            function: ClarityCostFunction::AnalysisTypeAnnotate,
            input: size as u64,
            reply: Ok(()),
        },
    )
    &&& holds(
        log,
        at + 2,
        Exchange::SetType { expr: args[1], found: TypeSignature::UIntType, reply: Ok(()) },
    )
}

/// `as-max-len?` takes a sequence of any kind and of any length, and any literal length that its
/// kind allows. It gives an optional sequence of that kind, of the same items, with that length. It
/// is refused as too large only where the kind does not allow the length.
pub proof fn law_as_max_len_takes_any_sequence(
    log: Seq<Exchange>,
    at: int,
    args: Seq<SymbolicExpression>,
    context: TypingContext,
    n: u32,
    size: u32,
    items: SequenceSubtype,
)
    requires
        length_noted(log, at, args, n as u128, size),
        gave_type(log, at + 3, args[0], context, TypeSignature::SequenceType(items)),
        charged_iterating(log, at + 4, 0),
        items is ListType ==> admitted_list(log, at + 5, unit_of(items), n),
    ensures
        n <= greatest_length(items) ==> match as_max_len_rule(log, at, args, context) {
            Run::Done(TypeSignature::OptionalType(inner), end) => match *inner {
                TypeSignature::SequenceType(limited) => {
                    &&& same_kind(limited, items)
                    &&& unit_of(limited) == unit_of(items)
                    &&& length_of(limited) == n
                    &&& end == (if items is ListType {
                        at + 6
                    } else {
                        at + 5
                    })
                },
                _ => false,
            },
            _ => false,
        },
        n > greatest_length(items) ==> as_max_len_rule(log, at, args, context) == Run::<
            TypeSignature,
        >::Failed(failure(CheckErrors::ValueTooLarge), at + 5),
{
    broadcast use lemma_buffer_length, lemma_utf8_length;

    law_lengths_have_limits(n);
}

/// What `as-max-len?` gives does not depend on how long the sequence was: for two sequences of one
/// kind and of the same items, it gives the same.
pub proof fn law_as_max_len_forgets_the_length(
    log: Seq<Exchange>,
    at: int,
    other: Seq<Exchange>,
    args: Seq<SymbolicExpression>,
    context: TypingContext,
    n: u32,
    size: u32,
    items: SequenceSubtype,
    others: SequenceSubtype,
)
    requires
        length_noted(log, at, args, n as u128, size),
        gave_type(log, at + 3, args[0], context, TypeSignature::SequenceType(items)),
        charged_iterating(log, at + 4, 0),
        items is ListType ==> admitted_list(log, at + 5, unit_of(items), n),
        same_kind(items, others),
        unit_of(items) == unit_of(others),
        other.len() == log.len(),
        gave_type(other, at + 3, args[0], context, TypeSignature::SequenceType(others)),
        forall|i: int| 0 <= i < log.len() && i != at + 3 ==> #[trigger] other[i] == log[i],
    ensures
        as_max_len_rule(other, at, args, context) == as_max_len_rule(log, at, args, context),
{
    assert(forall|i: int|
        0 <= i < log.len() && i != at + 3 ==> other[i] == #[trigger] log[i]);
    assert(length_noted(other, at, args, n as u128, size));
}

/// `as-max-len?` refuses a length that is no length at all before it looks at the sequence, refuses
/// what is no sequence, and refuses a length that is not given as a literal, with its type.
pub proof fn law_as_max_len_refusals(
    log: Seq<Exchange>,
    at: int,
    args: Seq<SymbolicExpression>,
    context: TypingContext,
    n: u128,
    size: u32,
    found: TypeSignature,
)
    requires
        args.len() == 2,
    ensures
        length_noted(log, at, args, n, size) && n > u32::MAX ==> as_max_len_rule(
            log,
            at,
            args,
            context,
        ) == Run::<TypeSignature>::Failed(failure(CheckErrors::MaxLengthOverflow), at + 3),
        length_noted(log, at, args, n, size) && n <= u32::MAX && !(found is SequenceType)
            && gave_type(log, at + 3, args[0], context, found) && charged_iterating(log, at + 4, 0)
            ==> as_max_len_rule(log, at, args, context) == Run::<TypeSignature>::Failed(
            failure(CheckErrors::ExpectedSequence(Box::new(found))),
            at + 5,
        ),
        match args[1].expr {
            SymbolicExpressionType::LiteralValue(Value::UInt(_)) => true,
            _ => gave_type(log, at, args[1], context, found) ==> as_max_len_rule(
                log,
                at,
                args,
                context,
            ) == Run::<TypeSignature>::Failed(
                failure(
                    CheckErrors::TypeError(Box::new(TypeSignature::UIntType), Box::new(found)),
                ),
                at + 1,
            ),
        },
{
}

/// `len` takes a sequence of any kind and nothing else.
pub proof fn law_len_takes_any_sequence(
    log: Seq<Exchange>,
    at: int,
    args: Seq<SymbolicExpression>,
    context: TypingContext,
    found: TypeSignature,
)
    requires
        args.len() == 1,
        gave_type(log, at, args[0], context, found),
        charged_iterating(log, at + 1, 0),
    ensures
        len_rule(log, at, args, context) == (if found is SequenceType {
            Run::Done(TypeSignature::UIntType, at + 2)
        } else {
            Run::Failed(failure(CheckErrors::ExpectedSequence(Box::new(found))), at + 2)
        }),
{
}

/// `element-at` takes a sequence of any kind and nothing else, and an unsigned integer, which it
/// looks at first. It gives an optional item.
pub proof fn law_element_at_takes_any_sequence(
    log: Seq<Exchange>,
    at: int,
    args: Seq<SymbolicExpression>,
    context: TypingContext,
    found: TypeSignature,
)
    requires
        args.len() == 2,
        took_as(log, at, args[1], context, TypeSignature::UIntType),
        gave_type(log, at + 1, args[0], context, found),
        charged_iterating(log, at + 2, 0),
    ensures
        match found {
            TypeSignature::SequenceType(SequenceSubtype::ListType(list)) => admitted_option(
                log,
                at + 3,
                *list.entry_type,
            ) ==> element_at_rule(log, at, args, context) == Run::Done(
                TypeSignature::OptionalType(list.entry_type),
                at + 4,
            ),
            TypeSignature::SequenceType(items) => element_at_rule(log, at, args, context)
                == Run::Done(TypeSignature::OptionalType(Box::new(unit_of(items))), at + 3),
            _ => element_at_rule(log, at, args, context) == Run::<TypeSignature>::Failed(
                failure(CheckErrors::ExpectedSequence(Box::new(found))),
                at + 3,
            ),
        },
{
}

/// `index-of` takes a sequence of any kind and nothing else, and what is an item of it.
pub proof fn law_index_of_takes_any_sequence(
    log: Seq<Exchange>,
    at: int,
    args: Seq<SymbolicExpression>,
    context: TypingContext,
    found: TypeSignature,
)
    requires
        args.len() == 2,
        charged_iterating(log, at, 0),
        gave_type(log, at + 1, args[0], context, found),
    ensures
        match found {
            TypeSignature::SequenceType(items) => took_as(
                log,
                at + 2,
                args[1],
                context,
                unit_of(items),
            ) && admitted_option(log, at + 3, TypeSignature::UIntType) ==> index_of_rule(
                log,
                at,
                args,
                context,
            ) == Run::Done(
                TypeSignature::OptionalType(Box::new(TypeSignature::UIntType)),
                at + 4,
            ),
            _ => index_of_rule(log, at, args, context) == Run::<TypeSignature>::Failed(
                failure(CheckErrors::ExpectedSequence(Box::new(found))),
                at + 2,
            ),
        },
{
}

/// `slice?` takes a sequence of any kind and nothing else, and two unsigned integers. It gives an
/// optional sequence of the same type.
pub proof fn law_slice_takes_any_sequence(
    log: Seq<Exchange>,
    at: int,
    args: Seq<SymbolicExpression>,
    context: TypingContext,
    found: TypeSignature,
)
    requires
        args.len() == 3,
        charged_iterating(log, at, 0),
        gave_type(log, at + 1, args[0], context, found),
    ensures
        found is SequenceType && admitted_option(log, at + 2, found) && took_as(
            log,
            at + 3,
            args[1],
            context,
            TypeSignature::UIntType,
        ) && took_as(log, at + 4, args[2], context, TypeSignature::UIntType) ==> slice_rule(
            log,
            at,
            args,
            context,
        ) == Run::Done(TypeSignature::OptionalType(Box::new(found)), at + 5),
        !(found is SequenceType) ==> slice_rule(log, at, args, context) == Run::<
            TypeSignature,
        >::Failed(failure(CheckErrors::ExpectedSequence(Box::new(found))), at + 2),
{
}

/// `replace-at?` takes a sequence of any kind and nothing else, an unsigned integer, and what is an
/// item of the sequence. It gives an optional sequence of the same type.
pub proof fn law_replace_at_takes_any_sequence(
    log: Seq<Exchange>,
    at: int,
    args: Seq<SymbolicExpression>,
    context: TypingContext,
    found: TypeSignature,
)
    requires
        args.len() == 3,
        charged_iterating(log, at, 0),
        gave_type(log, at + 1, args[0], context, found),
    ensures
        match found {
            TypeSignature::SequenceType(items) => took_as(
                log,
                at + 2,
                args[1],
                context,
                TypeSignature::UIntType,
            ) && took_as(log, at + 3, args[2], context, unit_of(items)) && admitted_option(
                log,
                at + 4,
                found,
            ) ==> replace_at_rule(log, at, args, context) == Run::Done(
                TypeSignature::OptionalType(Box::new(found)),
                at + 5,
            ),
            _ => replace_at_rule(log, at, args, context) == Run::<TypeSignature>::Failed(
                failure(CheckErrors::ExpectedSequence(Box::new(found))),
                at + 2,
            ),
        },
{
}

/// `to-consensus-buff?` takes a value of any type. It gives an optional buffer that is as long as
/// such a value may get, and is refused only where no buffer may be that long.
pub proof fn law_to_consensus_buff_takes_any_value(
    log: Seq<Exchange>,
    at: int,
    args: Seq<SymbolicExpression>,
    context: TypingContext,
    found: TypeSignature,
    n: u32,
    len: BufferLength,
)
    requires
        args.len() == 1,
        gave_type(log, at, args[0], context, found),
        holds(log, at + 1, Exchange::MaxSerializedSize { of: found, reply: Ok(n) }),
        len.value() == n,
    ensures
        n <= 1_048_576 && admitted_option(
            log,
            at + 2,
            TypeSignature::SequenceType(SequenceSubtype::BufferType(len)),
        ) ==> to_consensus_buff_rule(log, at, args, context) == Run::Done(
            TypeSignature::OptionalType(
                Box::new(TypeSignature::SequenceType(SequenceSubtype::BufferType(len))),
            ),
            at + 3,
        ),
        n > 1_048_576 ==> to_consensus_buff_rule(log, at, args, context) == Run::<
            TypeSignature,
        >::Failed(failure(CheckErrors::ValueTooLarge), at + 2),
{
    broadcast use lemma_buffer_length_by_value;

    law_lengths_have_limits(n);
}

/// `from-consensus-buff?` takes any description of a type, and a buffer that is as long as a value
/// may be. It gives an optional value of the described type.
pub proof fn law_from_consensus_buff_takes_any_type(
    log: Seq<Exchange>,
    at: int,
    args: Seq<SymbolicExpression>,
    context: TypingContext,
    described: TypeSignature,
    len: BufferLength,
)
    requires
        args.len() == 2,
        holds(
            log,
            at,
            Exchange::ParseType {
                epoch: StacksEpochId::Epoch21,
                expr: args[0],
                reply: Ok(described),
            },
        ),
        len.value() == 1_048_576,
        took_as(
            log,
            at + 1,
            args[1],
            context,
            TypeSignature::SequenceType(SequenceSubtype::BufferType(len)),
        ),
        admitted_option(log, at + 2, described),
    ensures
        from_consensus_buff_rule(log, at, args, context) == Run::Done(
            TypeSignature::OptionalType(Box::new(described)),
            at + 3,
        ),
{
    broadcast use lemma_buffer_length_by_value;

}

} // verus!
