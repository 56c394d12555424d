//! What holds of every check, whatever the analysis answers.

use vstd::prelude::*;

use crate::analysis::{Analysis, TypingContext};
use crate::checker::TypeChecker;
use crate::endings::{
    ends_as_reported, lemma_append_ends, lemma_as_max_len_ends, lemma_concat_ends,
    lemma_element_at_ends, lemma_filter_ends, lemma_fold_ends, lemma_from_consensus_buff_ends,
    lemma_index_of_ends, lemma_len_ends, lemma_map_ends, lemma_replace_at_ends, lemma_slice_ends,
    lemma_to_consensus_buff_ends,
};
use crate::errors::CheckErrors;
use crate::kept::{
    lemma_append_kept, lemma_as_max_len_kept, lemma_concat_kept, lemma_element_at_kept,
    lemma_filter_kept, lemma_fold_kept, lemma_from_consensus_buff_kept, lemma_index_of_kept,
    lemma_len_kept, lemma_map_kept, lemma_replace_at_kept, lemma_slice_kept,
    lemma_to_consensus_buff_kept,
};
use crate::record::{extends, only_reads, Exchange};
use crate::representations::{ClarityVersion, SymbolicExpression};
use crate::rules::{
    append_rule, as_max_len_rule, concat_rule, element_at_rule, filter_rule, fold_rule,
    from_consensus_buff_rule, index_of_rule, len_rule, map_rule, replace_at_rule, slice_rule,
    to_consensus_buff_rule,
};
use crate::run::{refused, Run};
use crate::signatures::TypeSignature;

verus! {

/// The functions that are type checked here.
pub enum Native {
    MapItems,
    Filter,
    Fold,
    Concat,
    Append,
    AsMaxLen,
    Len,
    ElementAt,
    IndexOf,
    Slice,
    ReplaceAt,
    ToConsensusBuff,
    FromConsensusBuff,
}

/// The rule of a function.
pub open spec fn rule_of(
    native: Native,
    log: Seq<Exchange>,
    at: int,
    args: Seq<SymbolicExpression>,
    context: TypingContext,
    version: ClarityVersion,
) -> Run<TypeSignature> {
    match native {
        Native::MapItems => map_rule(log, at, args, context, version),
        Native::Filter => filter_rule(log, at, args, context, version),
        Native::Fold => fold_rule(log, at, args, context, version),
        Native::Concat => concat_rule(log, at, args, context),
        Native::Append => append_rule(log, at, args, context),
        Native::AsMaxLen => as_max_len_rule(log, at, args, context),
        Native::Len => len_rule(log, at, args, context),
        Native::ElementAt => element_at_rule(log, at, args, context),
        Native::IndexOf => index_of_rule(log, at, args, context),
        Native::Slice => slice_rule(log, at, args, context),
        Native::ReplaceAt => replace_at_rule(log, at, args, context),
        Native::ToConsensusBuff => to_consensus_buff_rule(log, at, args, context),
        Native::FromConsensusBuff => from_consensus_buff_rule(log, at, args, context),
    }
}

/// Whether a function takes this many arguments.
pub open spec fn admits(native: Native, count: nat) -> bool {
    match native {
        Native::MapItems => count >= 2,
        _ => count == arity(native),
    }
}

/// How many arguments a function takes, and for `map` how many at least.
pub open spec fn arity(native: Native) -> usize {
    match native {
        Native::Len | Native::ToConsensusBuff => 1,
        Native::Fold | Native::Slice | Native::ReplaceAt => 3,
        _ => 2,
    }
}

/// A check with the wrong count of arguments fails for that count, before anything is asked or
/// charged.
pub proof fn law_wrong_count_asks_nothing(
    native: Native,
    log: Seq<Exchange>,
    at: int,
    args: Seq<SymbolicExpression>,
    context: TypingContext,
    version: ClarityVersion,
)
    requires
        !admits(native, args.len()),
    ensures
        rule_of(native, log, at, args, context, version) == refused::<TypeSignature>(
            match native {
                Native::MapItems => CheckErrors::RequiresAtLeastArguments(2, args.len() as usize),
                _ => CheckErrors::IncorrectArgumentCount(arity(native), args.len() as usize),
            },
            at,
        ),
{
}

/// An analysis that is asked nothing stays as it is.
pub proof fn law_unasked_analysis_is_unchanged<A: Analysis>(
    before: TypeChecker<A>,
    after: TypeChecker<A>,
)
    requires
        before.grew_to(&after),
        after.now() == before.now(),
    ensures
        after.host() == before.host(),
        after.log() == before.log(),
{
    assert(after.host_at(before.now()) == before.host_at(before.now()));
}

/// Questions that only look something up, or only compute, leave the analysis as it is: where
/// nothing else is asked from `i` to `j`, it is the same at both.
pub proof fn law_reading_changes_nothing<A: Analysis>(
    before: TypeChecker<A>,
    after: TypeChecker<A>,
    i: int,
    j: int,
)
    requires
        before.grew_to(&after),
        before.now() <= i <= j <= after.now(),
        forall|k: int| i <= k < j ==> only_reads(#[trigger] after.log()[k]),
    ensures
        after.host_at(i) == after.host_at(j),
    decreases j - i,
{
    if i < j {
        law_reading_changes_nothing(before, after, i, j - 1);
        assert(only_reads(after.log()[j - 1]));
    }
}

/// Checks may follow one another: what each has asked adds up, with nothing between.
pub proof fn law_checks_follow_one_another<A: Analysis>(
    first: TypeChecker<A>,
    second: TypeChecker<A>,
    third: TypeChecker<A>,
)
    requires
        first.grew_to(&second),
        second.grew_to(&third),
    ensures
        first.grew_to(&third),
{
}

/// What a record shows of a check is not changed by what is asked later.
pub proof fn law_later_questions_change_nothing(
    native: Native,
    log: Seq<Exchange>,
    longer: Seq<Exchange>,
    at: int,
    args: Seq<SymbolicExpression>,
    context: TypingContext,
    version: ClarityVersion,
)
    requires
        extends(log, longer),
        rule_of(native, log, at, args, context, version) !is Off,
    ensures
        rule_of(native, longer, at, args, context, version) == rule_of(
            native,
            log,
            at,
            args,
            context,
            version,
        ),
{
    match native {
        Native::MapItems => lemma_map_kept(log, longer, at, args, context, version),
        Native::Filter => lemma_filter_kept(log, longer, at, args, context, version),
        Native::Fold => lemma_fold_kept(log, longer, at, args, context, version),
        Native::Concat => lemma_concat_kept(log, longer, at, args, context),
        Native::Append => lemma_append_kept(log, longer, at, args, context),
        Native::AsMaxLen => lemma_as_max_len_kept(log, longer, at, args, context),
        Native::Len => lemma_len_kept(log, longer, at, args, context),
        Native::ElementAt => lemma_element_at_kept(log, longer, at, args, context),
        Native::IndexOf => lemma_index_of_kept(log, longer, at, args, context),
        Native::Slice => lemma_slice_kept(log, longer, at, args, context),
        Native::ReplaceAt => lemma_replace_at_kept(log, longer, at, args, context),
        Native::ToConsensusBuff => lemma_to_consensus_buff_kept(log, longer, at, args, context),
        Native::FromConsensusBuff => lemma_from_consensus_buff_kept(log, longer, at, args, context),
    }
}

/// A check stays within its record. The first thing that is refused ends it, with the error that
/// came back; `map` alone gives an error of its own for a list that may not be formed.
pub proof fn law_first_refusal_ends_the_check(
    native: Native,
    log: Seq<Exchange>,
    at: int,
    args: Seq<SymbolicExpression>,
    context: TypingContext,
    version: ClarityVersion,
)
    requires
        0 <= at <= log.len(),
    ensures
        ends_as_reported(
            native,
            log,
            at,
            rule_of(native, log, at, args, context, version),
        ),
{
    match native {
        Native::MapItems => lemma_map_ends(log, at, args, context, version),
        Native::Filter => lemma_filter_ends(log, at, args, context, version),
        Native::Fold => lemma_fold_ends(log, at, args, context, version),
        Native::Concat => lemma_concat_ends(log, at, args, context),
        Native::Append => lemma_append_ends(log, at, args, context),
        Native::AsMaxLen => lemma_as_max_len_ends(log, at, args, context),
        Native::Len => lemma_len_ends(log, at, args, context),
        Native::ElementAt => lemma_element_at_ends(log, at, args, context),
        Native::IndexOf => lemma_index_of_ends(log, at, args, context),
        Native::Slice => lemma_slice_ends(log, at, args, context),
        Native::ReplaceAt => lemma_replace_at_ends(log, at, args, context),
        Native::ToConsensusBuff => lemma_to_consensus_buff_ends(log, at, args, context),
        Native::FromConsensusBuff => lemma_from_consensus_buff_ends(log, at, args, context),
    }
}

} // verus!
