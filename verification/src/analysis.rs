//! What the rules are told about the rest of the analysis, and what they ask it.

use vstd::prelude::*;

use crate::errors::{CheckError, CheckErrors};
use crate::representations::{ClarityName, ClarityVersion, StacksEpochId, SymbolicExpression};
use crate::signatures::TypeSignature;

verus! {

/// The cost functions that the rules charge.
#[derive(Debug, PartialEq, Eq, Clone, Copy)]
pub enum ClarityCostFunction {
    AnalysisLookupFunction,
    AnalysisIterableFunc,
    AnalysisTypeAnnotate,
}

/// An amount of each of the resources that analysis may use up.
#[derive(Debug, PartialEq, Eq, Clone, Copy)]
pub struct ExecutionCost {
    pub write_length: u64,
    pub write_count: u64,
    pub read_length: u64,
    pub read_count: u64,
    pub runtime: u64,
}

/// What a function takes and returns, by the number under which the analysis keeps it.
#[derive(Debug, PartialEq, Eq, Clone, Copy)]
pub struct FunctionType(pub u64);

/// A function of the language itself, by its number.
#[derive(Debug, PartialEq, Eq, Clone, Copy)]
pub struct NativeFunctions(pub u64);

/// A function of the language that is typed like a function of a contract.
#[derive(Debug, PartialEq, Eq, Clone, Copy)]
pub struct SimpleNativeFunction(pub FunctionType);

/// How a function of the language is typed: by a rule of its own, or by what it takes and returns.
#[derive(Debug, PartialEq, Eq, Clone, Copy)]
pub enum TypedNativeFunction {
    Special,
    Simple(SimpleNativeFunction),
}

/// Where an expression stands: the rules that are in force there, and the number under which the
/// analysis keeps the names that are bound there.
#[derive(Debug, PartialEq, Eq, Clone, Copy)]
pub struct TypingContext {
    pub epoch: StacksEpochId,
    pub clarity_version: ClarityVersion,
    pub scope: u64,
}

/// The analysis that the rules are a part of.
///
/// The rules know nothing of its answers: what is proved of a rule holds whatever comes back. A
/// question that may change the analysis uses it up and gives back what it has become, with the
/// answer. So nothing of that kind can be asked twice of one analysis, or on the side. A question
/// that only looks something up, or only computes, leaves the analysis as it is.
pub trait Analysis: Sized {
    /// Charges what `function` costs for an input of size `input`.
    fn runtime_cost(self, function: ClarityCostFunction, input: u64) -> (
        Self,
        Result<(), CheckError>,
    );

    /// Charges `cost`.
    fn add_cost(self, cost: ExecutionCost) -> (Self, Result<(), CheckError>);

    /// Charges what it costs to hold two types against each other.
    fn analysis_typecheck_cost(self, left: &TypeSignature, right: &TypeSignature) -> (
        Self,
        Result<(), CheckError>,
    );

    /// The function of the language that has this name in this version, if there is one.
    fn lookup_by_name_at_version(&self, name: &ClarityName, version: ClarityVersion) -> Option<
        NativeFunctions,
    >;

    /// How a function of the language is typed.
    fn type_native_function(&self, function: NativeFunctions) -> Result<
        TypedNativeFunction,
        CheckErrors,
    >;

    /// The type of the function that the contract defines under this name, if it defines one.
    fn get_function_type(&self, name: &ClarityName) -> Option<FunctionType>;

    /// The type of an expression.
    fn type_check(self, expr: &SymbolicExpression, context: &TypingContext) -> (
        Self,
        Result<TypeSignature, CheckError>,
    );

    /// The type of an expression that has to be of type `expected`.
    fn type_check_expects(
        self,
        expr: &SymbolicExpression,
        context: &TypingContext,
        expected: &TypeSignature,
    ) -> (Self, Result<TypeSignature, CheckError>);

    /// Notes the type of an expression.
    fn set_type(self, expr: &SymbolicExpression, found: &TypeSignature) -> (
        Self,
        Result<(), CheckError>,
    );

    /// The type that `function` returns for arguments of these types.
    fn check_args(
        self,
        function: FunctionType,
        args: &[TypeSignature],
        epoch: StacksEpochId,
        version: ClarityVersion,
    ) -> (Self, Result<TypeSignature, CheckError>);

    /// Looks at the one argument at `index`, after those before it have given `accumulated`. Gives
    /// the costs that this comes to, which are not charged yet, and what is known afterwards.
    fn check_args_visitor_2_1(
        self,
        function: FunctionType,
        arg: &TypeSignature,
        index: usize,
        accumulated: Option<&TypeSignature>,
    ) -> (
        Self,
        (Vec<Result<ExecutionCost, CheckError>>, Result<Option<TypeSignature>, CheckError>),
    );

    /// The smallest type that both types belong to.
    fn least_supertype(
        &self,
        epoch: StacksEpochId,
        left: &TypeSignature,
        right: &TypeSignature,
    ) -> Result<TypeSignature, CheckErrors>;

    /// Whether the type of lists of up to `max_len` items of type `entry` may be formed.
    fn admit_list(&self, entry: &TypeSignature, max_len: u32) -> Result<(), CheckErrors>;

    /// Whether the type of optional values of type `inner` may be formed.
    fn admit_option(&self, inner: &TypeSignature) -> Result<(), CheckErrors>;

    /// The size of the description of a type.
    fn type_size(&self, of: &TypeSignature) -> Result<u32, CheckErrors>;

    /// The greatest number of bytes that a value of a type is serialized to.
    fn max_serialized_size(&self, of: &TypeSignature) -> Result<u32, CheckErrors>;

    /// The type that an expression describes.
    fn parse_type_repr(self, epoch: StacksEpochId, expr: &SymbolicExpression) -> (
        Self,
        Result<TypeSignature, CheckErrors>,
    );
}

} // verus!
