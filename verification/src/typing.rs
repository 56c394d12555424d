//! What the types that the checks give have to do with the types of the arguments.

use vstd::prelude::*;

use crate::analysis::{ClarityCostFunction, TypingContext};
use crate::determinism::same_course;
use crate::endings::{all_granted, refusal};
use crate::record::{typed, Exchange};
use crate::representations::{StacksEpochId, SymbolicExpression};
use crate::rules::{
    append_rule, as_max_len_rule, concat_rule, element_at_rule,
    from_consensus_buff_rule, index_of_rule, len_rule, replace_at_rule, slice_rule,
    to_consensus_buff_rule, uint_literal,
};
use crate::run::Run;
use crate::signatures::{
    buffer_type, lemma_buffer_length, lemma_buffer_length_by_value, lemma_utf8_length,
    lemma_utf8_length_by_value, length_of, optional_type, unit_of,
    BufferLength, MAX_VALUE_SIZE, SequenceSubtype, StringSubtype, StringUTF8Length, TypeSignature,
};

verus! {

/// Between `from` and `to`, the analysis gave `found` for the type of `expr`.
pub open spec fn found(
    log: Seq<Exchange>,
    from: int,
    to: int,
    expr: SymbolicExpression,
    context: TypingContext,
    found: TypeSignature,
) -> bool {
    exists|i: int|
        from <= i < to && #[trigger] log[i] == (Exchange::TypeCheck {
            expr,
            context,
            reply: Ok(found),
        })
}

/// Between `from` and `to`, the analysis gave the type of a sequence, `items`, for `expr`.
pub open spec fn found_sequence(
    log: Seq<Exchange>,
    from: int,
    to: int,
    expr: SymbolicExpression,
    context: TypingContext,
    items: SequenceSubtype,
) -> bool {
    found(log, from, to, expr, context, TypeSignature::SequenceType(items))
}

/// Between `from` and `to`, the analysis took `expr` to be of type `expected`.
pub open spec fn confirmed(
    log: Seq<Exchange>,
    from: int,
    to: int,
    expr: SymbolicExpression,
    context: TypingContext,
    expected: TypeSignature,
) -> bool {
    exists|i: int|
        from <= i < to && match #[trigger] log[i] {
            Exchange::TypeCheckExpects { expr: e, context: c, expected: t, reply } => e == expr && c
                == context && t == expected && reply is Ok,
            _ => false,
        }
}

/// Two sequences of one kind.
pub open spec fn same_kind(left: SequenceSubtype, right: SequenceSubtype) -> bool {
    match (left, right) {
        (SequenceSubtype::ListType(_), SequenceSubtype::ListType(_)) => true,
        (SequenceSubtype::BufferType(_), SequenceSubtype::BufferType(_)) => true,
        (
            SequenceSubtype::StringType(StringSubtype::ASCII(_)),
            SequenceSubtype::StringType(StringSubtype::ASCII(_)),
        ) => true,
        (
            SequenceSubtype::StringType(StringSubtype::UTF8(_)),
            SequenceSubtype::StringType(StringSubtype::UTF8(_)),
        ) => true,
        _ => false,
    }
}

/// A sequence of bytes or characters may be this long.
pub open spec fn within_limits(items: SequenceSubtype) -> bool {
    match items {
        SequenceSubtype::ListType(_) => true,
        SequenceSubtype::BufferType(len) => BufferLength::fits(len.value()),
        SequenceSubtype::StringType(StringSubtype::ASCII(len)) => BufferLength::fits(len.value()),
        SequenceSubtype::StringType(StringSubtype::UTF8(len)) => StringUTF8Length::fits(
            len.value(),
        ),
    }
}

/// `len` gives an unsigned integer, for any sequence.
pub proof fn law_len_counts_any_sequence(
    log: Seq<Exchange>,
    at: int,
    args: Seq<SymbolicExpression>,
    context: TypingContext,
    given: TypeSignature,
    end: int,
)
    requires
        len_rule(log, at, args, context) == Run::Done(given, end),
    ensures
        given == TypeSignature::UIntType,
        exists|items: SequenceSubtype|
            #[trigger] found_sequence(log, at, end, args[0], context, items),
{
    if let Run::Done(TypeSignature::SequenceType(items), _) = typed(log, at, args[0], context) {
        assert(found_sequence(log, at, end, args[0], context, items)) by {
            assert(log[at] == (Exchange::TypeCheck {
                expr: args[0],
                context,
                reply: Ok(TypeSignature::SequenceType(items)),
            }));
        }
    }
}

/// `element-at` gives an optional item of its sequence, for any kind of sequence.
pub proof fn law_element_at_gives_an_item(
    log: Seq<Exchange>,
    at: int,
    args: Seq<SymbolicExpression>,
    context: TypingContext,
    given: TypeSignature,
    end: int,
)
    requires
        element_at_rule(log, at, args, context) == Run::Done(given, end),
    ensures
        confirmed(log, at, end, args[1], context, TypeSignature::UIntType),
        exists|items: SequenceSubtype|
            given == optional_type(unit_of(items)) && #[trigger] found_sequence(
                log,
                at,
                end,
                args[0],
                context,
                items,
            ),
{
    if let Run::Done(TypeSignature::SequenceType(items), _) = typed(log, at + 1, args[0], context) {
        assert(log[at] is TypeCheckExpects);
        assert(log[at + 1] == (Exchange::TypeCheck {
            expr: args[0],
            context,
            reply: Ok(TypeSignature::SequenceType(items)),
        }));
        assert(found_sequence(log, at, end, args[0], context, items));
    }
}

/// `index-of` gives an optional unsigned integer, and looks for what is an item of its sequence.
pub proof fn law_index_of_looks_for_an_item(
    log: Seq<Exchange>,
    at: int,
    args: Seq<SymbolicExpression>,
    context: TypingContext,
    given: TypeSignature,
    end: int,
)
    requires
        index_of_rule(log, at, args, context) == Run::Done(given, end),
    ensures
        given == optional_type(TypeSignature::UIntType),
        exists|items: SequenceSubtype|
            confirmed(log, at, end, args[1], context, unit_of(items)) && #[trigger] found_sequence(
                log,
                at,
                end,
                args[0],
                context,
                items,
            ),
{
    if let Run::Done(TypeSignature::SequenceType(items), _) = typed(log, at + 1, args[0], context) {
        assert(log[at + 1] == (Exchange::TypeCheck {
            expr: args[0],
            context,
            reply: Ok(TypeSignature::SequenceType(items)),
        }));
        assert(log[at + 2] is TypeCheckExpects);
        assert(found_sequence(log, at, end, args[0], context, items));
    }
}

/// `slice?` gives an optional sequence of the type of its sequence, whatever the positions.
pub proof fn law_slice_keeps_the_type(
    log: Seq<Exchange>,
    at: int,
    args: Seq<SymbolicExpression>,
    context: TypingContext,
    given: TypeSignature,
    end: int,
)
    requires
        slice_rule(log, at, args, context) == Run::Done(given, end),
    ensures
        confirmed(log, at, end, args[1], context, TypeSignature::UIntType),
        confirmed(log, at, end, args[2], context, TypeSignature::UIntType),
        exists|items: SequenceSubtype|
            given == optional_type(TypeSignature::SequenceType(items)) && #[trigger] found_sequence(
                log,
                at,
                end,
                args[0],
                context,
                items,
            ),
{
    if let Run::Done(TypeSignature::SequenceType(items), _) = typed(log, at + 1, args[0], context) {
        assert(log[at + 1] == (Exchange::TypeCheck {
            expr: args[0],
            context,
            reply: Ok(TypeSignature::SequenceType(items)),
        }));
        assert(log[at + 3] is TypeCheckExpects);
        assert(log[at + 4] is TypeCheckExpects);
        assert(found_sequence(log, at, end, args[0], context, items));
    }
}

/// `replace-at?` gives an optional sequence of the type of its sequence, and puts in what is an
/// item of it.
pub proof fn law_replace_at_keeps_the_type(
    log: Seq<Exchange>,
    at: int,
    args: Seq<SymbolicExpression>,
    context: TypingContext,
    given: TypeSignature,
    end: int,
)
    requires
        replace_at_rule(log, at, args, context) == Run::Done(given, end),
    ensures
        confirmed(log, at, end, args[1], context, TypeSignature::UIntType),
        exists|items: SequenceSubtype|
            given == optional_type(TypeSignature::SequenceType(items)) && confirmed(
                log,
                at,
                end,
                args[2],
                context,
                unit_of(items),
            ) && #[trigger] found_sequence(log, at, end, args[0], context, items),
{
    if let Run::Done(TypeSignature::SequenceType(items), _) = typed(log, at + 1, args[0], context) {
        assert(log[at + 1] == (Exchange::TypeCheck {
            expr: args[0],
            context,
            reply: Ok(TypeSignature::SequenceType(items)),
        }));
        assert(log[at + 2] is TypeCheckExpects);
        assert(log[at + 3] is TypeCheckExpects);
        assert(found_sequence(log, at, end, args[0], context, items));
    }
}

/// The analysis gave `entry` for the smallest type that `left` and `right` belong to.
pub open spec fn in_common(
    exchange: Exchange,
    left: TypeSignature,
    right: TypeSignature,
    entry: TypeSignature,
) -> bool {
    exchange == (Exchange::LeastSupertype {
        epoch: StacksEpochId::Epoch21,
        left,
        right,
        reply: Ok(entry),
    })
}

/// `concat` joins two sequences of one kind to one of that kind, as long as both together, and
/// never longer than a sequence of that kind may be. The items of a joined list are of the type
/// that those of both lists have in common.
pub proof fn law_concat_adds_lengths(
    log: Seq<Exchange>,
    at: int,
    args: Seq<SymbolicExpression>,
    context: TypingContext,
    given: TypeSignature,
    end: int,
)
    requires
        concat_rule(log, at, args, context) == Run::Done(given, end),
    ensures
        match given {
            TypeSignature::SequenceType(whole) => within_limits(whole) && exists|
                left: SequenceSubtype,
                right: SequenceSubtype,
            |
                same_kind(left, right) && same_kind(left, whole) && length_of(whole) == length_of(
                    left,
                ) + length_of(right) && #[trigger] found_sequence(
                    log,
                    at,
                    end,
                    args[0],
                    context,
                    left,
                ) && #[trigger] found_sequence(log, at, end, args[1], context, right) && (
                whole is ListType ==> in_common(
                    log[end - 2],
                    unit_of(left),
                    unit_of(right),
                    unit_of(whole),
                )),
            _ => false,
        },
{
    broadcast use lemma_buffer_length, lemma_utf8_length;

    if let Run::Done(TypeSignature::SequenceType(left), _) = typed(log, at, args[0], context) {
        if let Run::Done(TypeSignature::SequenceType(right), _) = typed(
            log,
            at + 1,
            args[1],
            context,
        ) {
            assert(log[at] == (Exchange::TypeCheck {
                expr: args[0],
                context,
                reply: Ok(TypeSignature::SequenceType(left)),
            }));
            assert(log[at + 1] == (Exchange::TypeCheck {
                expr: args[1],
                context,
                reply: Ok(TypeSignature::SequenceType(right)),
            }));
            assert(found_sequence(log, at, end, args[0], context, left));
            assert(found_sequence(log, at, end, args[1], context, right));
        }
    }
}

/// The analysis gave the types of two sequences, `left` and `right`, at `at` and after it.
pub open spec fn found_both(
    log: Seq<Exchange>,
    at: int,
    args: Seq<SymbolicExpression>,
    context: TypingContext,
    left: SequenceSubtype,
    right: SequenceSubtype,
) -> bool {
    &&& log[at] == (Exchange::TypeCheck {
        expr: args[0],
        context,
        reply: Ok(TypeSignature::SequenceType(left)),
    })
    &&& log[at + 1] == (Exchange::TypeCheck {
        expr: args[1],
        context,
        reply: Ok(TypeSignature::SequenceType(right)),
    })
}

/// Buffers, and strings of one character set, join to the same type either way round, or fail for
/// the same reason, where charging for it does not fail.
pub proof fn law_concat_of_strings_is_symmetric(
    log: Seq<Exchange>,
    at: int,
    args: Seq<SymbolicExpression>,
    other: Seq<Exchange>,
    from: int,
    turned: Seq<SymbolicExpression>,
    context: TypingContext,
    left: SequenceSubtype,
    right: SequenceSubtype,
)
    requires
        same_kind(left, right),
        !(left is ListType),
        found_both(log, at, args, context, left, right),
        found_both(other, from, turned, context, right, left),
        all_granted(log, at, at + 4),
        all_granted(other, from, from + 4),
        concat_rule(log, at, args, context) !is Off,
        concat_rule(other, from, turned, context) !is Off,
        args.len() == 2,
        turned == seq![args[1], args[0]],
    ensures
        same_course(
            concat_rule(log, at, args, context),
            at,
            concat_rule(other, from, turned, context),
            from,
        ),
{
    assert(refusal(log[at + 2]) is None && refusal(log[at + 3]) is None);
    assert(refusal(other[from + 2]) is None && refusal(other[from + 3]) is None);
}

/// Joining a buffer or a string with an empty one, on either side, keeps its type, where charging
/// for it does not fail.
pub proof fn law_concat_with_nothing_keeps_the_type(
    log: Seq<Exchange>,
    at: int,
    args: Seq<SymbolicExpression>,
    context: TypingContext,
    left: SequenceSubtype,
    right: SequenceSubtype,
)
    requires
        same_kind(left, right),
        !(left is ListType),
        within_limits(left),
        within_limits(right),
        args.len() == 2,
        found_both(log, at, args, context, left, right),
        all_granted(log, at, at + 4),
        concat_rule(log, at, args, context) !is Off,
    ensures
        length_of(right) == 0 ==> concat_rule(log, at, args, context) == Run::Done(
            TypeSignature::SequenceType(left),
            at + 4,
        ),
        length_of(left) == 0 ==> concat_rule(log, at, args, context) == Run::Done(
            TypeSignature::SequenceType(right),
            at + 4,
        ),
{
    broadcast use lemma_buffer_length_by_value, lemma_utf8_length_by_value;

    assert(refusal(log[at + 2]) is None && refusal(log[at + 3]) is None);
}

/// Whatever `element-at` can yield for a sequence may be sought in it with `index-of`. Where an
/// element of a sequence was found to be of type `item`, an expression that is of type `item` is
/// taken by `index-of` on that sequence, which asks for just that, unless charging for it fails or
/// an optional number may not be formed.
pub proof fn law_elements_may_be_sought(
    log: Seq<Exchange>,
    at: int,
    args: Seq<SymbolicExpression>,
    context: TypingContext,
    item: TypeSignature,
    end: int,
    other: Seq<Exchange>,
    from: int,
    sought: SymbolicExpression,
    sequence: TypeSignature,
    reply: TypeSignature,
)
    requires
        element_at_rule(log, at, args, context) == Run::Done(optional_type(item), end),
        found(log, at, end, args[0], context, sequence),
        0 <= from,
        from + 4 <= other.len(),
        other[from] == (Exchange::RuntimeCost {
            function: ClarityCostFunction::AnalysisIterableFunc,
            input: 0,
            reply: Ok(()),
        }),
        other[from + 1] == (Exchange::TypeCheck { expr: args[0], context, reply: Ok(sequence) }),
        other[from + 2] == (Exchange::TypeCheckExpects {
            expr: sought,
            context,
            expected: item,
            reply: Ok(reply),
        }),
        other[from + 3] == (Exchange::AdmitOption {
            inner: TypeSignature::UIntType,
            reply: Ok(()),
        }),
    ensures
        index_of_rule(other, from, seq![args[0], sought], context) == Run::Done(
            optional_type(TypeSignature::UIntType),
            from + 4,
        ),
{
    assert(log[at + 1] == (Exchange::TypeCheck { expr: args[0], context, reply: Ok(sequence) }));
    let both = seq![args[0], sought];
    assert(both.len() == 2 && both[0] == args[0] && both[1] == sought);
}

/// Whatever `element-at` can yield for a sequence may be put into it with `replace-at?`. Where an
/// element of a sequence was found to be of type `item`, an expression that is of type `item` is
/// taken by `replace-at?` on that sequence, which keeps its type, unless charging for it fails, the
/// index is no number, or an optional sequence may not be formed.
pub proof fn law_elements_may_be_put_back(
    log: Seq<Exchange>,
    at: int,
    args: Seq<SymbolicExpression>,
    context: TypingContext,
    item: TypeSignature,
    end: int,
    other: Seq<Exchange>,
    from: int,
    index: SymbolicExpression,
    element: SymbolicExpression,
    sequence: TypeSignature,
    replies: (TypeSignature, TypeSignature),
)
    requires
        element_at_rule(log, at, args, context) == Run::Done(optional_type(item), end),
        found(log, at, end, args[0], context, sequence),
        0 <= from,
        from + 5 <= other.len(),
        other[from] == (Exchange::RuntimeCost {
            function: ClarityCostFunction::AnalysisIterableFunc,
            input: 0,
            reply: Ok(()),
        }),
        other[from + 1] == (Exchange::TypeCheck { expr: args[0], context, reply: Ok(sequence) }),
        other[from + 2] == (Exchange::TypeCheckExpects {
            expr: index,
            context,
            expected: TypeSignature::UIntType,
            reply: Ok(replies.0),
        }),
        other[from + 3] == (Exchange::TypeCheckExpects {
            expr: element,
            context,
            expected: item,
            reply: Ok(replies.1),
        }),
        other[from + 4] == (Exchange::AdmitOption { inner: sequence, reply: Ok(()) }),
    ensures
        replace_at_rule(other, from, seq![args[0], index, element], context) == Run::Done(
            optional_type(sequence),
            from + 5,
        ),
{
    assert(log[at + 1] == (Exchange::TypeCheck { expr: args[0], context, reply: Ok(sequence) }));
    let all = seq![args[0], index, element];
    assert(all.len() == 3 && all[0] == args[0] && all[1] == index && all[2] == element);
}

/// `append` gives a list that is longer by one, of the type that its items and the new one have in
/// common.
pub proof fn law_append_adds_one(
    log: Seq<Exchange>,
    at: int,
    args: Seq<SymbolicExpression>,
    context: TypingContext,
    given: TypeSignature,
    end: int,
)
    requires
        append_rule(log, at, args, context) == Run::Done(given, end),
    ensures
        match given {
            TypeSignature::SequenceType(whole) => exists|
                items: SequenceSubtype,
                item: TypeSignature,
            |
                items is ListType && whole is ListType && length_of(whole) == length_of(items) + 1
                    && #[trigger] found_sequence(log, at, end, args[0], context, items)
                    && #[trigger] found(log, at, end, args[1], context, item) && in_common(
                    log[end - 2],
                    unit_of(items),
                    item,
                    unit_of(whole),
                ),
            _ => false,
        },
{
    if let Run::Done(TypeSignature::SequenceType(items), _) = typed(log, at + 1, args[0], context) {
        assert(log[at + 1] == (Exchange::TypeCheck {
            expr: args[0],
            context,
            reply: Ok(TypeSignature::SequenceType(items)),
        }));
        assert(found_sequence(log, at, end, args[0], context, items));
        if let Run::Done(item, _) = typed(log, at + 2, args[1], context) {
            assert(log[at + 2] == (Exchange::TypeCheck {
                expr: args[1],
                context,
                reply: Ok(item),
            }));
            assert(found(log, at, end, args[1], context, item));
        }
    }
}

/// `as-max-len?` gives an optional sequence of the kind and of the items of its sequence, with
/// the literal length.
pub proof fn law_as_max_len_sets_the_length(
    log: Seq<Exchange>,
    at: int,
    args: Seq<SymbolicExpression>,
    context: TypingContext,
    given: TypeSignature,
    end: int,
)
    requires
        as_max_len_rule(log, at, args, context) == Run::Done(given, end),
    ensures
        exists|items: SequenceSubtype, limited: SequenceSubtype|
            given == #[trigger] optional_type(TypeSignature::SequenceType(limited)) && same_kind(
                items,
                limited,
            ) && unit_of(limited) == unit_of(items) && uint_literal(args[1]) == Some(
                length_of(limited) as u128,
            ) && within_limits(limited) && #[trigger] found_sequence(
                log,
                at,
                end,
                args[0],
                context,
                items,
            ),
{
    broadcast use lemma_buffer_length, lemma_utf8_length;

    if let Run::Done(TypeSignature::SequenceType(items), _) = typed(log, at + 3, args[0], context) {
        assert(log[at + 3] == (Exchange::TypeCheck {
            expr: args[0],
            context,
            reply: Ok(TypeSignature::SequenceType(items)),
        }));
        assert(found_sequence(log, at, end, args[0], context, items));
        if let TypeSignature::OptionalType(limited) = given {
            if let TypeSignature::SequenceType(limited) = *limited {
                assert(given == optional_type(TypeSignature::SequenceType(limited)));
            }
        }
    }
}

/// `to-consensus-buff?` gives an optional buffer, as long as the analysis says that a value of the
/// type of its argument may get.
pub proof fn law_to_consensus_buff_holds_the_value(
    log: Seq<Exchange>,
    at: int,
    args: Seq<SymbolicExpression>,
    context: TypingContext,
    given: TypeSignature,
    end: int,
)
    requires
        to_consensus_buff_rule(log, at, args, context) == Run::Done(given, end),
    ensures
        exists|value: TypeSignature, n: u32|
            #![trigger found(log, at, end, args[0], context, value), buffer_type(n)]
            found(log, at, end, args[0], context, value) && log[at + 1] == (
            Exchange::MaxSerializedSize { of: value, reply: Ok(n) }) && BufferLength::fits(n)
                && given == optional_type(buffer_type(n)),
{
    if let Run::Done(value, _) = typed(log, at, args[0], context) {
        assert(log[at] == (Exchange::TypeCheck { expr: args[0], context, reply: Ok(value) }));
        assert(found(log, at, end, args[0], context, value));
        if let Exchange::MaxSerializedSize { of, reply: Ok(n) } = log[at + 1] {
            assert(given == optional_type(buffer_type(n)));
        }
    }
}

/// `from-consensus-buff?` gives an optional value of the type that its first argument describes,
/// and takes a buffer of any length.
pub proof fn law_from_consensus_buff_gives_the_described_type(
    log: Seq<Exchange>,
    at: int,
    args: Seq<SymbolicExpression>,
    context: TypingContext,
    given: TypeSignature,
    end: int,
)
    requires
        from_consensus_buff_rule(log, at, args, context) == Run::Done(given, end),
    ensures
        confirmed(log, at, end, args[1], context, buffer_type(MAX_VALUE_SIZE)),
        match log[at] {
            Exchange::ParseType { epoch, expr, reply: Ok(described) } => epoch
                == StacksEpochId::Epoch21 && expr == args[0] && given == optional_type(described),
            _ => false,
        },
{
    assert(log[at + 1] is TypeCheckExpects);
}

} // verus!
