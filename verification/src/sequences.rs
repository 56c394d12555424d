//! Type checks the functions that work on sequences.

use vstd::prelude::*;

use crate::analysis::{
    Analysis, ClarityCostFunction, ExecutionCost, FunctionType, SimpleNativeFunction,
    TypedNativeFunction, TypingContext,
};
use crate::arguments::{get_arguments_at_least, get_arguments_exact};
use crate::checker::TypeChecker;
use crate::errors::{CheckError, CheckErrors, Diagnostic};
use crate::kept::{
    lemma_costs_added_kept, lemma_costs_added_stops, lemma_function_rule_kept, lemma_map_steps_kept,
    lemma_map_steps_stops,
};
use crate::representations::{
    ClarityName, StacksEpochId, SymbolicExpression, SymbolicExpressionType, Value,
};
use crate::rules::{
    append_rule, as_max_len_rule, concat_end, concat_rule, costs_added, element_at_rule,
    filter_rule, fold_rule, function_rule, index_of_rule, len_rule, lengths_added, map_end,
    map_rule, map_step, map_steps, mapping_begun, recounted, replace_at_rule, slice_rule, Mapping,
};
use crate::run::{ended, Run};
use crate::signatures::{SequenceSubtype, StringSubtype, TypeSignature};

pub use crate::signatures::{BufferLength, ListTypeData, StringUTF8Length};

verus! {

/// The type of the function `function_name`: one of the language that is typed by what it takes and
/// returns or, where the language has none of that name, one of the contract. Nothing changes but
/// what is charged for it, first of all.
pub fn get_simple_native_or_user_define<A: Analysis>(
    function_name: &ClarityName,
    checker: &mut TypeChecker<A>,
) -> (r: Result<FunctionType, CheckError>)
    requires
        old(checker).ready(),
    ensures
        old(checker).grew_to(final(checker)),
        function_rule(
            final(checker).log(),
            old(checker).now(),
            *function_name,
            old(checker).version(),
        ) == ended(r, final(checker).now()),
        final(checker).host() == final(checker).host_at(old(checker).now() + 1),
{
    checker.runtime_cost(ClarityCostFunction::AnalysisLookupFunction, 0)?;
    let version = checker.clarity_version();
    if let Some(native_function) = checker.lookup_by_name_at_version(function_name, version) {
        if let TypedNativeFunction::Simple(SimpleNativeFunction(function_type)) =
            checker.type_native_function(native_function)?
        {
            Ok(function_type)
        } else {
            Err(
                CheckError::from(
                    CheckErrors::IllegalOrUnknownFunctionApplication(function_name.clone()),
                ),
            )
        }
    } else {
        match checker.get_function_type(function_name) {
            Some(function_type) => Ok(function_type),
            None => Err(
                CheckError::from(
                    CheckErrors::IllegalOrUnknownFunctionApplication(function_name.clone()),
                ),
            ),
        }
    }
}

/// Charges all of `costs`, in order, up to the first that cannot be charged.
fn add_costs<A: Analysis>(
    checker: &mut TypeChecker<A>,
    costs: Vec<Result<ExecutionCost, CheckError>>,
) -> (r: Result<(), CheckError>)
    requires
        old(checker).ready(),
    ensures
        old(checker).grew_to(final(checker)),
        costs_added(final(checker).log(), old(checker).now(), costs@, costs@.len()) == ended(
            r,
            final(checker).now(),
        ),
{
    let ghost begin = checker.now();
    for cost in iter: costs.into_iter()
        invariant
            iter.seq() == costs@,
            begin == old(checker).now(),
            old(checker).grew_to(checker),
            costs_added(checker.log(), begin, costs@, iter.index() as nat) == ended(
                Ok(()),
                checker.now(),
            ),
    {
        let ghost before = checker.log();
        let ghost done = iter.index() as nat;
        let charged = match cost {
            Ok(cost) => checker.add_cost(cost),
            Err(error) => Err(error),
        };
        proof {
            lemma_costs_added_kept(before, checker.log(), begin, costs@, done);
        }
        if let Err(error) = charged {
            proof {
                lemma_costs_added_stops(checker.log(), begin, costs@, done + 1, costs@.len());
            }
            return Err(error);
        }
    }
    Ok(())
}

/// What is known of a `map` while its sequences are looked at.
struct MapProgress {
    min_args: u32,
    accumulated_types: Vec<TypeSignature>,
    accumulated_type: Option<TypeSignature>,
    total_costs: Vec<Result<ExecutionCost, CheckError>>,
    check_result: Option<CheckError>,
}

impl View for MapProgress {
    type V = Mapping;

    closed spec fn view(&self) -> Mapping {
        Mapping {
            min_args: self.min_args,
            entries: self.accumulated_types@,
            accumulated: self.accumulated_type,
            costs: self.total_costs@,
            failed: self.check_result,
        }
    }
}

/// Looks at the sequence `arg`, the one at `arg_ix`.
fn map_argument<A: Analysis>(
    checker: &mut TypeChecker<A>,
    arg: &SymbolicExpression,
    context: &TypingContext,
    function_type: FunctionType,
    arg_ix: usize,
    progress: MapProgress,
) -> (r: Result<MapProgress, CheckError>)
    requires
        old(checker).ready(),
    ensures
        old(checker).grew_to(final(checker)),
        map_step(
            final(checker).log(),
            old(checker).now(),
            *arg,
            *context,
            function_type,
            arg_ix,
            progress@,
        ) == ended(
            match r {
                Ok(progress) => Ok(progress@),
                Err(error) => Err(error),
            },
            final(checker).now(),
        ),
{
    let mut progress = progress;
    let argument_type = checker.type_check(arg, context)?;
    let (entry_type, len) = match argument_type {
        TypeSignature::SequenceType(sequence) => match sequence {
            SequenceSubtype::ListType(list_data) => list_data.destruct(),
            SequenceSubtype::BufferType(buffer_data) => {
                (TypeSignature::min_buffer(), buffer_data.get())
            },
            SequenceSubtype::StringType(StringSubtype::ASCII(ascii_data)) => {
                (TypeSignature::min_string_ascii(), ascii_data.get())
            },
            SequenceSubtype::StringType(StringSubtype::UTF8(utf8_data)) => {
                (TypeSignature::min_string_utf8(), utf8_data.get())
            },
        },
        _ => {
            return Err(CheckError::from(CheckErrors::ExpectedSequence(Box::new(argument_type))));
        },
    };
    if len < progress.min_args {
        progress.min_args = len;
    }
    if progress.check_result.is_none() {
        let (costs, result) = checker.check_args_visitor_2_1(
            function_type,
            &entry_type,
            arg_ix,
            progress.accumulated_type.as_ref(),
        );
        // the entry type and the costs are noted before the result is looked at, so that a
        //  failure is charged for them too
        let mut costs = costs;
        progress.accumulated_types.push(entry_type);
        progress.total_costs.append(&mut costs);
        match result {
            Ok(Some(returned_type)) => {
                progress.accumulated_type = Some(returned_type);
            },
            Ok(None) => {},
            Err(error) => {
                progress.check_result = Some(error);
            },
        }
    }
    Ok(progress)
}

/// Looks at all the sequences, which follow the function in `args`.
fn map_arguments<A: Analysis>(
    checker: &mut TypeChecker<A>,
    args: &[SymbolicExpression],
    context: &TypingContext,
    function_type: FunctionType,
) -> (r: Result<MapProgress, CheckError>)
    requires
        old(checker).ready(),
        args@.len() >= 1,
    ensures
        old(checker).grew_to(final(checker)),
        map_steps(
            final(checker).log(),
            old(checker).now(),
            args@,
            *context,
            function_type,
            (args@.len() - 1) as nat,
        ) == ended(
            match r {
                Ok(progress) => Ok(progress@),
                Err(error) => Err(error),
            },
            final(checker).now(),
        ),
{
    let mut progress = MapProgress {
        min_args: u32::MAX,
        accumulated_types: Vec::new(),
        accumulated_type: None,
        total_costs: Vec::new(),
        check_result: None,
    };
    let ghost begin = checker.now();
    let mut arg_ix: usize = 0;
    assert(progress@ =~= mapping_begun());
    while arg_ix < args.len() - 1
        invariant
            arg_ix <= args@.len() - 1,
            begin == old(checker).now(),
            old(checker).grew_to(checker),
            map_steps(checker.log(), begin, args@, *context, function_type, arg_ix as nat)
                == Run::Done(progress@, checker.now()),
        decreases args.len() - arg_ix,
    {
        let ghost before = checker.log();
        let arg = &args[arg_ix + 1];
        let step = map_argument(checker, arg, context, function_type, arg_ix, progress);
        arg_ix = arg_ix + 1;
        proof {
            lemma_map_steps_kept(
                before,
                checker.log(),
                begin,
                args@,
                *context,
                function_type,
                (arg_ix - 1) as nat,
            );
        }
        match step {
            Ok(next) => {
                progress = next;
            },
            Err(error) => {
                proof {
                    lemma_map_steps_stops(
                        checker.log(),
                        begin,
                        args@,
                        *context,
                        function_type,
                        arg_ix as nat,
                        (args@.len() - 1) as nat,
                    );
                }
                return Err(error);
            },
        }
    }
    Ok(progress)
}

/// `error`, with `actual` for the count of arguments where it is about that count.
fn recount(error: CheckError, actual: usize) -> (r: CheckError)
    ensures
        r == recounted(error, actual),
{
    let mut error = error;
    if let CheckErrors::IncorrectArgumentCount(expected, _) = *error.err {
        error.err = Box::new(CheckErrors::IncorrectArgumentCount(expected, actual));
        error.diagnostic = Diagnostic::err(&error.err);
    }
    error
}

/// The type of a `map` once all its sequences have been looked at.
fn map_result<A: Analysis>(
    checker: &mut TypeChecker<A>,
    args: &[SymbolicExpression],
    context: &TypingContext,
    function_type: FunctionType,
    progress: MapProgress,
) -> (r: Result<TypeSignature, CheckError>)
    requires
        old(checker).ready(),
        args@.len() >= 1,
    ensures
        old(checker).grew_to(final(checker)),
        map_end(
            final(checker).log(),
            old(checker).now(),
            args@,
            *context,
            function_type,
            progress@,
        ) == ended(r, final(checker).now()),
{
    if let Some(check_error) = progress.check_result {
        let check_error = recount(check_error, args.len() - 1);
        // what was looked at is charged for
        add_costs(checker, progress.total_costs)?;
        return Err(check_error);
    }
    let mapped_type = checker.check_args(
        function_type,
        progress.accumulated_types.as_slice(),
        context.epoch,
        context.clarity_version,
    )?;
    match checker.list_of(mapped_type, progress.min_args) {
        Ok(list) => Ok(list),
        Err(_) => Err(CheckError::from(CheckErrors::ConstructedListTooLarge)),
    }
}

/// Type checks `map`, which applies a function to the items of one or more sequences.
pub fn check_special_map<A: Analysis>(
    checker: &mut TypeChecker<A>,
    args: &[SymbolicExpression],
    context: &TypingContext,
) -> (r: Result<TypeSignature, CheckError>)
    requires
        old(checker).ready(),
    ensures
        old(checker).grew_to(final(checker)),
        map_rule(
            final(checker).log(),
            old(checker).now(),
            args@,
            *context,
            old(checker).version(),
        ) == ended(r, final(checker).now()),
{
    get_arguments_at_least(args, 2)?;
    let function_name = match args[0].match_atom() {
        Some(name) => name,
        None => return Err(CheckError::from(CheckErrors::NonFunctionApplication)),
    };
    // only functions that are typed by what they take and return are found here:
    //   a special function cannot be mapped.
    let function_type = get_simple_native_or_user_define(function_name, checker)?;
    let ghost found = checker.log();
    checker.runtime_cost(ClarityCostFunction::AnalysisIterableFunc, args.len() as u64)?;
    let ghost charged_at = checker.now();
    let mapping = map_arguments(checker, args, context, function_type);
    let ghost mapped = checker.log();
    let r = match mapping {
        Ok(progress) => map_result(checker, args, context, function_type, progress),
        Err(error) => Err(error),
    };
    proof {
        lemma_function_rule_kept(
            found,
            checker.log(),
            old(checker).now(),
            *function_name,
            old(checker).version(),
        );
        lemma_map_steps_kept(
            mapped,
            checker.log(),
            charged_at,
            args@,
            *context,
            function_type,
            (args@.len() - 1) as nat,
        );
    }
    r
}

/// Type checks `filter`, which keeps the items of a sequence that a function holds of.
pub fn check_special_filter<A: Analysis>(
    checker: &mut TypeChecker<A>,
    args: &[SymbolicExpression],
    context: &TypingContext,
) -> (r: Result<TypeSignature, CheckError>)
    requires
        old(checker).ready(),
    ensures
        old(checker).grew_to(final(checker)),
        filter_rule(
            final(checker).log(),
            old(checker).now(),
            args@,
            *context,
            old(checker).version(),
        ) == ended(r, final(checker).now()),
{
    get_arguments_exact(args, 2)?;
    let function_name = match args[0].match_atom() {
        Some(name) => name,
        None => return Err(CheckError::from(CheckErrors::NonFunctionApplication)),
    };
    // only functions that are typed by what they take and return are found here:
    //   a special function cannot be used to filter.
    let function_type = get_simple_native_or_user_define(function_name, checker)?;
    checker.runtime_cost(ClarityCostFunction::AnalysisIterableFunc, 0)?;
    let argument_type = checker.type_check(&args[1], context)?;
    let input_type = match &argument_type {
        TypeSignature::SequenceType(sequence_type) => sequence_type.unit_type(),
        _ => {
            return Err(CheckError::from(CheckErrors::ExpectedSequence(Box::new(argument_type))));
        },
    };
    let inputs = vec![input_type];
    assert(inputs@ =~= seq![input_type]);
    let filter_type = checker.check_args(
        function_type,
        inputs.as_slice(),
        context.epoch,
        context.clarity_version,
    )?;
    match filter_type {
        TypeSignature::BoolType => Ok(argument_type),
        _ => Err(
            CheckError::from(
                CheckErrors::TypeError(Box::new(TypeSignature::BoolType), Box::new(filter_type)),
            ),
        ),
    }
}

/// Type checks `fold`, which carries a value through the items of a sequence.
pub fn check_special_fold<A: Analysis>(
    checker: &mut TypeChecker<A>,
    args: &[SymbolicExpression],
    context: &TypingContext,
) -> (r: Result<TypeSignature, CheckError>)
    requires
        old(checker).ready(),
    ensures
        old(checker).grew_to(final(checker)),
        fold_rule(
            final(checker).log(),
            old(checker).now(),
            args@,
            *context,
            old(checker).version(),
        ) == ended(r, final(checker).now()),
{
    get_arguments_exact(args, 3)?;
    let function_name = match args[0].match_atom() {
        Some(name) => name,
        None => return Err(CheckError::from(CheckErrors::NonFunctionApplication)),
    };
    // only functions that are typed by what they take and return are found here:
    //   a special function cannot be folded.
    let function_type = get_simple_native_or_user_define(function_name, checker)?;
    checker.runtime_cost(ClarityCostFunction::AnalysisIterableFunc, 0)?;
    let argument_type = checker.type_check(&args[1], context)?;
    let input_type = match &argument_type {
        TypeSignature::SequenceType(sequence_type) => sequence_type.unit_type(),
        _ => {
            return Err(CheckError::from(CheckErrors::ExpectedSequence(Box::new(argument_type))));
        },
    };
    let initial_value_type = checker.type_check(&args[2], context)?;

    // fold: f(A, B) -> A
    //     where A = initial_value_type
    //           B = list items type

    // f must accept the initial value and the list items type
    let first_inputs = vec![input_type.clone(), initial_value_type];
    assert(first_inputs@ =~= seq![input_type, initial_value_type]);
    let return_type = checker.check_args(
        function_type,
        first_inputs.as_slice(),
        context.epoch,
        context.clarity_version,
    )?;

    // f must _also_ accept its own return type!
    let later_inputs = vec![input_type, return_type];
    assert(later_inputs@ =~= seq![input_type, return_type]);
    checker.check_args(
        function_type,
        later_inputs.as_slice(),
        context.epoch,
        context.clarity_version,
    )
}

/// The sum of two lengths.
fn add_lengths(left: u32, right: u32) -> (r: Result<u32, CheckError>)
    ensures
        forall|at: int| #[trigger] lengths_added(left, right, at) == ended(r, at),
{
    match left.checked_add(right) {
        Some(sum) => Ok(sum),
        None => Err(CheckError::from(CheckErrors::MaxLengthOverflow)),
    }
}

/// The type of what two sequences of these types are joined to.
fn concat_types<A: Analysis>(
    checker: &mut TypeChecker<A>,
    lhs_type: TypeSignature,
    rhs_type: TypeSignature,
) -> (r: Result<TypeSignature, CheckError>)
    requires
        old(checker).ready(),
    ensures
        old(checker).grew_to(final(checker)),
        concat_end(final(checker).log(), old(checker).now(), lhs_type, rhs_type) == ended(
            r,
            final(checker).now(),
        ),
{
    match (&lhs_type, &rhs_type) {
        (TypeSignature::SequenceType(lhs_seq), TypeSignature::SequenceType(rhs_seq)) => {
            match (lhs_seq, rhs_seq) {
                (SequenceSubtype::ListType(lhs_list), SequenceSubtype::ListType(rhs_list)) => {
                    let list_entry_type = checker.least_supertype(
                        StacksEpochId::Epoch21,
                        lhs_list.get_list_item_type(),
                        rhs_list.get_list_item_type(),
                    )?;
                    let new_len = add_lengths(lhs_list.get_max_len(), rhs_list.get_max_len())?;
                    checker.list_of(list_entry_type, new_len)
                },
                (SequenceSubtype::BufferType(lhs_len), SequenceSubtype::BufferType(rhs_len)) => {
                    let size = add_lengths(lhs_len.get(), rhs_len.get())?;
                    TypeSignature::buffer_of(size)
                },
                (
                    SequenceSubtype::StringType(StringSubtype::ASCII(lhs_len)),
                    SequenceSubtype::StringType(StringSubtype::ASCII(rhs_len)),
                ) => {
                    let size = add_lengths(lhs_len.get(), rhs_len.get())?;
                    TypeSignature::ascii_of(size)
                },
                (
                    SequenceSubtype::StringType(StringSubtype::UTF8(lhs_len)),
                    SequenceSubtype::StringType(StringSubtype::UTF8(rhs_len)),
                ) => {
                    let size = add_lengths(lhs_len.get(), rhs_len.get())?;
                    TypeSignature::utf8_of(size)
                },
                (_, _) => Err(
                    CheckError::from(
                        CheckErrors::TypeError(Box::new(lhs_type), Box::new(rhs_type)),
                    ),
                ),
            }
        },
        _ => Err(CheckError::from(CheckErrors::ExpectedSequence(Box::new(lhs_type)))),
    }
}

/// Type checks `concat`, which joins two sequences of one kind.
pub fn check_special_concat<A: Analysis>(
    checker: &mut TypeChecker<A>,
    args: &[SymbolicExpression],
    context: &TypingContext,
) -> (r: Result<TypeSignature, CheckError>)
    requires
        old(checker).ready(),
    ensures
        old(checker).grew_to(final(checker)),
        concat_rule(final(checker).log(), old(checker).now(), args@, *context) == ended(
            r,
            final(checker).now(),
        ),
{
    get_arguments_exact(args, 2)?;
    let lhs_type = checker.type_check(&args[0], context)?;
    let rhs_type = checker.type_check(&args[1], context)?;
    checker.runtime_cost(ClarityCostFunction::AnalysisIterableFunc, 0)?;
    checker.analysis_typecheck_cost(&lhs_type, &rhs_type)?;
    concat_types(checker, lhs_type, rhs_type)
}

/// Type checks `append`, which puts an item at the end of a list.
pub fn check_special_append<A: Analysis>(
    checker: &mut TypeChecker<A>,
    args: &[SymbolicExpression],
    context: &TypingContext,
) -> (r: Result<TypeSignature, CheckError>)
    requires
        old(checker).ready(),
    ensures
        old(checker).grew_to(final(checker)),
        append_rule(final(checker).log(), old(checker).now(), args@, *context) == ended(
            r,
            final(checker).now(),
        ),
{
    get_arguments_exact(args, 2)?;
    checker.runtime_cost(ClarityCostFunction::AnalysisIterableFunc, 0)?;
    let lhs_type = checker.type_check(&args[0], context)?;
    match lhs_type {
        TypeSignature::SequenceType(SequenceSubtype::ListType(lhs_list)) => {
            let rhs_type = checker.type_check(&args[1], context)?;
            let (lhs_entry_type, lhs_max_len) = lhs_list.destruct();
            checker.analysis_typecheck_cost(&lhs_entry_type, &rhs_type)?;
            let list_entry_type = checker.least_supertype(
                StacksEpochId::Epoch21,
                &lhs_entry_type,
                &rhs_type,
            )?;
            let new_len = add_lengths(lhs_max_len, 1)?;
            checker.list_of(list_entry_type, new_len)
        },
        _ => Err(CheckError::from(CheckErrors::ExpectedListApplication)),
    }
}

/// Type checks `as-max-len?`, which gives a sequence if it is no longer than a literal length.
pub fn check_special_as_max_len<A: Analysis>(
    checker: &mut TypeChecker<A>,
    args: &[SymbolicExpression],
    context: &TypingContext,
) -> (r: Result<TypeSignature, CheckError>)
    requires
        old(checker).ready(),
    ensures
        old(checker).grew_to(final(checker)),
        as_max_len_rule(final(checker).log(), old(checker).now(), args@, *context) == ended(
            r,
            final(checker).now(),
        ),
{
    get_arguments_exact(args, 2)?;
    let expected_len: u128 = match &args[1].expr {
        SymbolicExpressionType::LiteralValue(Value::UInt(expected_len)) => *expected_len,
        _ => {
            let expected_len_type = checker.type_check(&args[1], context)?;
            return Err(
                CheckError::from(
                    CheckErrors::TypeError(
                        Box::new(TypeSignature::UIntType),
                        Box::new(expected_len_type),
                    ),
                ),
            );
        },
    };
    let size: u32 = checker.type_size(&TypeSignature::UIntType)?;
    checker.runtime_cost(ClarityCostFunction::AnalysisTypeAnnotate, size as u64)?;
    checker.set_type(&args[1], &TypeSignature::UIntType)?;
    if expected_len > u32::MAX as u128 {
        return Err(CheckError::from(CheckErrors::MaxLengthOverflow));
    }
    let expected_len: u32 = expected_len as u32;
    let found = checker.type_check(&args[0], context)?;
    checker.runtime_cost(ClarityCostFunction::AnalysisIterableFunc, 0)?;
    let resized = match found {
        TypeSignature::SequenceType(SequenceSubtype::ListType(list)) => {
            let (entry_type, _) = list.destruct();
            checker.list_of(entry_type, expected_len)?
        },
        TypeSignature::SequenceType(SequenceSubtype::BufferType(_)) => {
            TypeSignature::buffer_of(expected_len)?
        },
        TypeSignature::SequenceType(SequenceSubtype::StringType(StringSubtype::ASCII(_))) => {
            TypeSignature::ascii_of(expected_len)?
        },
        TypeSignature::SequenceType(SequenceSubtype::StringType(StringSubtype::UTF8(_))) => {
            TypeSignature::utf8_of(expected_len)?
        },
        _ => return Err(CheckError::from(CheckErrors::ExpectedSequence(Box::new(found)))),
    };
    Ok(TypeSignature::OptionalType(Box::new(resized)))
}

/// Type checks `len`, which counts the items of a sequence.
pub fn check_special_len<A: Analysis>(
    checker: &mut TypeChecker<A>,
    args: &[SymbolicExpression],
    context: &TypingContext,
) -> (r: Result<TypeSignature, CheckError>)
    requires
        old(checker).ready(),
    ensures
        old(checker).grew_to(final(checker)),
        len_rule(final(checker).log(), old(checker).now(), args@, *context) == ended(
            r,
            final(checker).now(),
        ),
{
    get_arguments_exact(args, 1)?;
    let collection_type = checker.type_check(&args[0], context)?;
    checker.runtime_cost(ClarityCostFunction::AnalysisIterableFunc, 0)?;
    match collection_type {
        TypeSignature::SequenceType(_) => Ok(TypeSignature::UIntType),
        _ => Err(CheckError::from(CheckErrors::ExpectedSequence(Box::new(collection_type)))),
    }
}

/// Type checks `element-at`, which gives the item of a sequence at an index.
pub fn check_special_element_at<A: Analysis>(
    checker: &mut TypeChecker<A>,
    args: &[SymbolicExpression],
    context: &TypingContext,
) -> (r: Result<TypeSignature, CheckError>)
    requires
        old(checker).ready(),
    ensures
        old(checker).grew_to(final(checker)),
        element_at_rule(final(checker).log(), old(checker).now(), args@, *context) == ended(
            r,
            final(checker).now(),
        ),
{
    get_arguments_exact(args, 2)?;
    checker.type_check_expects(&args[1], context, &TypeSignature::UIntType)?;
    let collection_type = checker.type_check(&args[0], context)?;
    checker.runtime_cost(ClarityCostFunction::AnalysisIterableFunc, 0)?;
    match collection_type {
        TypeSignature::SequenceType(SequenceSubtype::ListType(list)) => {
            let (entry_type, _) = list.destruct();
            checker.new_option(entry_type)
        },
        TypeSignature::SequenceType(SequenceSubtype::BufferType(_)) => {
            Ok(TypeSignature::OptionalType(Box::new(TypeSignature::min_buffer())))
        },
        TypeSignature::SequenceType(SequenceSubtype::StringType(StringSubtype::ASCII(_))) => {
            Ok(TypeSignature::OptionalType(Box::new(TypeSignature::min_string_ascii())))
        },
        TypeSignature::SequenceType(SequenceSubtype::StringType(StringSubtype::UTF8(_))) => {
            Ok(TypeSignature::OptionalType(Box::new(TypeSignature::min_string_utf8())))
        },
        _ => Err(CheckError::from(CheckErrors::ExpectedSequence(Box::new(collection_type)))),
    }
}

/// Type checks `index-of`, which gives the index of an item in a sequence.
pub fn check_special_index_of<A: Analysis>(
    checker: &mut TypeChecker<A>,
    args: &[SymbolicExpression],
    context: &TypingContext,
) -> (r: Result<TypeSignature, CheckError>)
    requires
        old(checker).ready(),
    ensures
        old(checker).grew_to(final(checker)),
        index_of_rule(final(checker).log(), old(checker).now(), args@, *context) == ended(
            r,
            final(checker).now(),
        ),
{
    get_arguments_exact(args, 2)?;
    checker.runtime_cost(ClarityCostFunction::AnalysisIterableFunc, 0)?;
    let list_type = checker.type_check(&args[0], context)?;
    let expected_input_type = match &list_type {
        TypeSignature::SequenceType(sequence_type) => sequence_type.unit_type(),
        _ => return Err(CheckError::from(CheckErrors::ExpectedSequence(Box::new(list_type)))),
    };
    checker.type_check_expects(&args[1], context, &expected_input_type)?;
    checker.new_option(TypeSignature::UIntType)
}

/// Type checks `slice?`, which gives the part of a sequence between two positions.
pub fn check_special_slice<A: Analysis>(
    checker: &mut TypeChecker<A>,
    args: &[SymbolicExpression],
    context: &TypingContext,
) -> (r: Result<TypeSignature, CheckError>)
    requires
        old(checker).ready(),
    ensures
        old(checker).grew_to(final(checker)),
        slice_rule(final(checker).log(), old(checker).now(), args@, *context) == ended(
            r,
            final(checker).now(),
        ),
{
    get_arguments_exact(args, 3)?;
    checker.runtime_cost(ClarityCostFunction::AnalysisIterableFunc, 0)?;
    let seq_type = checker.type_check(&args[0], context)?;
    let part = match seq_type {
        TypeSignature::SequenceType(_) => checker.new_option(seq_type)?,
        _ => return Err(CheckError::from(CheckErrors::ExpectedSequence(Box::new(seq_type)))),
    };
    checker.type_check_expects(&args[1], context, &TypeSignature::UIntType)?;
    checker.type_check_expects(&args[2], context, &TypeSignature::UIntType)?;
    Ok(part)
}

/// Type checks `replace-at?`, which gives a sequence with another item at an index.
pub fn check_special_replace_at<A: Analysis>(
    checker: &mut TypeChecker<A>,
    args: &[SymbolicExpression],
    context: &TypingContext,
) -> (r: Result<TypeSignature, CheckError>)
    requires
        old(checker).ready(),
    ensures
        old(checker).grew_to(final(checker)),
        replace_at_rule(final(checker).log(), old(checker).now(), args@, *context) == ended(
            r,
            final(checker).now(),
        ),
{
    get_arguments_exact(args, 3)?;
    checker.runtime_cost(ClarityCostFunction::AnalysisIterableFunc, 0)?;
    let input_type = checker.type_check(&args[0], context)?;
    let unit_seq = match &input_type {
        TypeSignature::SequenceType(seq_type) => seq_type.unit_type(),
        _ => return Err(CheckError::from(CheckErrors::ExpectedSequence(Box::new(input_type)))),
    };
    checker.type_check_expects(&args[1], context, &TypeSignature::UIntType)?;
    checker.type_check_expects(&args[2], context, &unit_seq)?;
    checker.new_option(input_type)
}

} // verus!
