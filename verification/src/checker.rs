//! The checker that the rules run against.

use vstd::prelude::*;

use crate::analysis::{
    Analysis, ClarityCostFunction, ExecutionCost, FunctionType, NativeFunctions,
    TypedNativeFunction, TypingContext,
};
use crate::errors::{with_reason, CheckError, CheckErrors};
use crate::record::{
    applied, charged, compared, cost_added, extends, genuine, joined, list_admitted, list_formed,
    native_found, native_typed, noted, option_admitted, option_formed, pointee, serialized_size,
    sized, type_parsed, typed, typed_as, user_found, visited, Exchange, Visit,
};
use crate::representations::{ClarityName, ClarityVersion, StacksEpochId, SymbolicExpression};
use crate::run::{ended, Run};
use crate::signatures::{ListTypeData, SequenceSubtype, TypeSignature};

verus! {

/// A checker: an analysis, and the record of all that it was asked.
///
/// The analysis is out only while it is asked something that may change it.
pub struct TypeChecker<A: Analysis> {
    version: ClarityVersion,
    analysis: Option<A>,
    record: Ghost<Seq<Exchange>>,
    earlier: Ghost<Seq<A>>,
}

impl<A: Analysis> TypeChecker<A> {
    /// The version of the language that is checked.
    pub closed spec fn version(&self) -> ClarityVersion {
        self.version
    }

    /// Whether the analysis is in, and the record is whole.
    pub closed spec fn ready(&self) -> bool {
        self.analysis is Some && self.earlier@.len() == self.record@.len()
    }

    /// The analysis, as it is now.
    pub closed spec fn host(&self) -> A {
        self.analysis->0
    }

    /// All that the analysis was asked, oldest first.
    pub closed spec fn log(&self) -> Seq<Exchange> {
        self.record@
    }

    /// What the analysis was before each question.
    pub closed spec fn hosts(&self) -> Seq<A> {
        self.earlier@
    }

    /// How long the record is.
    pub open spec fn now(&self) -> int {
        self.log().len() as int
    }

    /// The analysis as it was before the question at `i` of the record, and as it is now where the
    /// record ends.
    pub open spec fn host_at(&self, i: int) -> A {
        if i < self.now() {
            self.hosts()[i]
        } else {
            self.host()
        }
    }

    /// `later` is this checker, after the analysis may have been asked some more.
    ///
    /// Nothing has changed the analysis past the record: from here to where it stands in `later`,
    /// each answer in the record leads from one state of the analysis to the next. Where the record
    /// has not grown, the analysis is what it was.
    pub open spec fn grew_to(&self, later: &Self) -> bool {
        &&& later.ready()
        &&& later.version() == self.version()
        &&& extends(self.log(), later.log())
        &&& forall|i: int|
            0 <= i <= self.now() ==> #[trigger] later.host_at(i) == self.host_at(i)
        &&& forall|i: int|
            self.now() <= i < later.now() ==> genuine(
                later.host_at(i),
                #[trigger] later.log()[i],
                later.host_at(i + 1),
            )
    }

    /// A checker that has asked nothing yet.
    pub fn new(analysis: A, version: ClarityVersion) -> (r: Self)
        ensures
            r.ready(),
            r.host() == analysis,
            r.version() == version,
            r.log() == Seq::<Exchange>::empty(),
    {
        TypeChecker {
            version,
            analysis: Some(analysis),
            record: Ghost(Seq::empty()),
            earlier: Ghost(Seq::empty()),
        }
    }

    /// The version of the language that is checked.
    pub fn clarity_version(&self) -> (r: ClarityVersion)
        ensures
            r == self.version(),
    {
        self.version
    }

    /// The analysis, as it is now. Nothing more can be asked through this checker.
    pub fn into_analysis(self) -> (r: A)
        requires
            self.ready(),
        ensures
            r == self.host(),
    {
        self.analysis.unwrap()
    }

    /// The analysis, to ask it something that leaves it as it is.
    fn analysis(&self) -> (r: &A)
        requires
            self.ready(),
        ensures
            *r == self.host(),
    {
        self.analysis.as_ref().unwrap()
    }

    /// Notes a question that has left the analysis as it was.
    fn note(&mut self, asked: Ghost<Exchange>)
        ensures
            final(self).version == old(self).version,
            final(self).analysis == old(self).analysis,
            final(self).record@ == old(self).record@.push(asked@),
            final(self).earlier@ == old(self).earlier@.push(old(self).host()),
    {
        self.earlier = Ghost(self.earlier@.push(self.host()));
        self.record = Ghost(self.record@.push(asked@));
    }

    /// Takes the analysis out, to ask it something that may change it.
    fn take_analysis(&mut self) -> (r: A)
        requires
            old(self).ready(),
        ensures
            r == old(self).host(),
            final(self).version == old(self).version,
            final(self).record == old(self).record,
            final(self).earlier == old(self).earlier,
    {
        self.analysis.take().unwrap()
    }

    /// Puts the analysis back in, which was `before` and is `after` this question.
    fn put_back(&mut self, before: Ghost<A>, asked: Ghost<Exchange>, after: A)
        ensures
            final(self).version == old(self).version,
            final(self).analysis == Some(after),
            final(self).record@ == old(self).record@.push(asked@),
            final(self).earlier@ == old(self).earlier@.push(before@),
    {
        self.analysis = Some(after);
        self.record = Ghost(self.record@.push(asked@));
        self.earlier = Ghost(self.earlier@.push(before@));
    }

    /// Charges what `function` costs for an input of size `input`.
    pub fn runtime_cost(
        &mut self,
        function: ClarityCostFunction,
        input: u64,
    ) -> (r: Result<(), CheckError>)
        requires
            old(self).ready(),
        ensures
            old(self).grew_to(final(self)),
            charged(final(self).log(), old(self).now(), function, input) == ended(
                r,
                final(self).now(),
            ),
            final(self).log() == old(self).log().push(
                Exchange::RuntimeCost { function, input, reply: r },
            ),
            call_ensures(
                A::runtime_cost,
                (old(self).host(), function, input),
                (final(self).host(), r),
            ),
    {
        let analysis = self.take_analysis();
        let ghost before = analysis;
        let (after, reply) = analysis.runtime_cost(function, input);
        let ghost asked = Exchange::RuntimeCost { function, input, reply };
        self.put_back(Ghost(before), Ghost(asked), after);
        reply
    }

    /// Charges `cost`.
    pub fn add_cost(&mut self, cost: ExecutionCost) -> (r: Result<(), CheckError>)
        requires
            old(self).ready(),
        ensures
            old(self).grew_to(final(self)),
            cost_added(final(self).log(), old(self).now(), cost) == ended(r, final(self).now()),
            final(self).log() == old(self).log().push(
                Exchange::AddCost { cost, reply: r },
            ),
            call_ensures(
                A::add_cost,
                (old(self).host(), cost),
                (final(self).host(), r),
            ),
    {
        let analysis = self.take_analysis();
        let ghost before = analysis;
        let (after, reply) = analysis.add_cost(cost);
        self.put_back(Ghost(before), Ghost(Exchange::AddCost { cost, reply }), after);
        reply
    }

    /// Charges what it costs to hold `left` and `right` against each other.
    pub fn analysis_typecheck_cost(
        &mut self,
        left: &TypeSignature,
        right: &TypeSignature,
    ) -> (r: Result<(), CheckError>)
        requires
            old(self).ready(),
        ensures
            old(self).grew_to(final(self)),
            compared(final(self).log(), old(self).now(), *left, *right) == ended(
                r,
                final(self).now(),
            ),
            final(self).log() == old(self).log().push(
                Exchange::TypecheckCost { left: *left, right: *right, reply: r },
            ),
            call_ensures(
                A::analysis_typecheck_cost,
                (old(self).host(), left, right),
                (final(self).host(), r),
            ),
    {
        let analysis = self.take_analysis();
        let ghost before = analysis;
        let (after, reply) = analysis.analysis_typecheck_cost(left, right);
        let ghost asked = Exchange::TypecheckCost { left: *left, right: *right, reply };
        self.put_back(Ghost(before), Ghost(asked), after);
        reply
    }

    /// The function of the language that has this name in this version, if there is one.
    pub fn lookup_by_name_at_version(
        &mut self,
        name: &ClarityName,
        version: ClarityVersion,
    ) -> (r: Option<NativeFunctions>)
        requires
            old(self).ready(),
        ensures
            old(self).grew_to(final(self)),
            native_found(final(self).log(), old(self).now(), *name, version) == Run::Done(
                r,
                final(self).now(),
            ),
            final(self).log() == old(self).log().push(
                Exchange::LookupNative { name: *name, version, reply: r },
            ),
            final(self).host() == old(self).host(),
            call_ensures(A::lookup_by_name_at_version, (&old(self).host(), name, version), r),
    {
        let reply = self.analysis().lookup_by_name_at_version(name, version);
        let ghost asked = Exchange::LookupNative { name: *name, version, reply };
        self.note(Ghost(asked));
        reply
    }

    /// How a function of the language is typed.
    pub fn type_native_function(
        &mut self,
        function: NativeFunctions,
    ) -> (r: Result<TypedNativeFunction, CheckError>)
        requires
            old(self).ready(),
        ensures
            old(self).grew_to(final(self)),
            native_typed(final(self).log(), old(self).now(), function) == ended(
                r,
                final(self).now(),
            ),
            final(self).host() == old(self).host(),
            exists|reply: Result<TypedNativeFunction, CheckErrors>|
                #[trigger] call_ensures(
                    A::type_native_function,
                    (&old(self).host(), function),
                    reply,
                ) && final(self).log() == old(self).log().push(
                    Exchange::TypeNative { function, reply },
                ) && r == with_reason(reply),
    {
        let reply = self.analysis().type_native_function(function);
        self.note(Ghost(Exchange::TypeNative { function, reply }));
        match reply {
            Ok(found) => Ok(found),
            Err(reason) => Err(CheckError::from(reason)),
        }
    }

    /// The type of the function that the contract defines under this name, if it defines one.
    pub fn get_function_type(&mut self, name: &ClarityName) -> (r: Option<FunctionType>)
        requires
            old(self).ready(),
        ensures
            old(self).grew_to(final(self)),
            user_found(final(self).log(), old(self).now(), *name) == Run::Done(
                r,
                final(self).now(),
            ),
            final(self).log() == old(self).log().push(
                Exchange::LookupUser { name: *name, reply: r },
            ),
            final(self).host() == old(self).host(),
            call_ensures(A::get_function_type, (&old(self).host(), name), r),
    {
        let reply = self.analysis().get_function_type(name);
        self.note(Ghost(Exchange::LookupUser { name: *name, reply }));
        reply
    }

    /// The type of `expr`.
    pub fn type_check(
        &mut self,
        expr: &SymbolicExpression,
        context: &TypingContext,
    ) -> (r: Result<TypeSignature, CheckError>)
        requires
            old(self).ready(),
        ensures
            old(self).grew_to(final(self)),
            typed(final(self).log(), old(self).now(), *expr, *context) == ended(
                r,
                final(self).now(),
            ),
            final(self).log() == old(self).log().push(
                Exchange::TypeCheck { expr: *expr, context: *context, reply: r },
            ),
            call_ensures(
                A::type_check,
                (old(self).host(), expr, context),
                (final(self).host(), r),
            ),
    {
        let analysis = self.take_analysis();
        let ghost before = analysis;
        let (after, reply) = analysis.type_check(expr, context);
        let ghost asked = Exchange::TypeCheck { expr: *expr, context: *context, reply };
        self.put_back(Ghost(before), Ghost(asked), after);
        reply
    }

    /// The type of `expr`, which has to be of type `expected`.
    pub fn type_check_expects(
        &mut self,
        expr: &SymbolicExpression,
        context: &TypingContext,
        expected: &TypeSignature,
    ) -> (r: Result<TypeSignature, CheckError>)
        requires
            old(self).ready(),
        ensures
            old(self).grew_to(final(self)),
            typed_as(final(self).log(), old(self).now(), *expr, *context, *expected) == ended(
                r,
                final(self).now(),
            ),
            final(self).log() == old(self).log().push(
                Exchange::TypeCheckExpects {
                    expr: *expr,
                    context: *context,
                    expected: *expected,
                    reply: r,
                },
            ),
            call_ensures(
                A::type_check_expects,
                (old(self).host(), expr, context, expected),
                (final(self).host(), r),
            ),
    {
        let analysis = self.take_analysis();
        let ghost before = analysis;
        let (after, reply) = analysis.type_check_expects(expr, context, expected);
        let ghost asked = Exchange::TypeCheckExpects {
            expr: *expr,
            context: *context,
            expected: *expected,
            reply,
        };
        self.put_back(Ghost(before), Ghost(asked), after);
        reply
    }

    /// Notes that `expr` is of type `found`.
    pub fn set_type(
        &mut self,
        expr: &SymbolicExpression,
        found: &TypeSignature,
    ) -> (r: Result<(), CheckError>)
        requires
            old(self).ready(),
        ensures
            old(self).grew_to(final(self)),
            noted(final(self).log(), old(self).now(), *expr, *found) == ended(r, final(self).now()),
            final(self).log() == old(self).log().push(
                Exchange::SetType { expr: *expr, found: *found, reply: r },
            ),
            call_ensures(
                A::set_type,
                (old(self).host(), expr, found),
                (final(self).host(), r),
            ),
    {
        let analysis = self.take_analysis();
        let ghost before = analysis;
        let (after, reply) = analysis.set_type(expr, found);
        let ghost asked = Exchange::SetType { expr: *expr, found: *found, reply };
        self.put_back(Ghost(before), Ghost(asked), after);
        reply
    }

    /// What `function` returns for arguments of the types `args`.
    pub fn check_args(
        &mut self,
        function: FunctionType,
        args: &[TypeSignature],
        epoch: StacksEpochId,
        version: ClarityVersion,
    ) -> (r: Result<TypeSignature, CheckError>)
        requires
            old(self).ready(),
        ensures
            old(self).grew_to(final(self)),
            applied(final(self).log(), old(self).now(), function, args@, epoch, version) == ended(
                r,
                final(self).now(),
            ),
            final(self).log() == old(self).log().push(
                Exchange::CheckArgs { function, args: args@, epoch, version, reply: r },
            ),
            call_ensures(
                A::check_args,
                (old(self).host(), function, args, epoch, version),
                (final(self).host(), r),
            ),
    {
        let analysis = self.take_analysis();
        let ghost before = analysis;
        let (after, reply) = analysis.check_args(function, args, epoch, version);
        let ghost asked = Exchange::CheckArgs { function, args: args@, epoch, version, reply };
        self.put_back(Ghost(before), Ghost(asked), after);
        reply
    }

    /// Looks at the argument of `function` at `index`, after those before it have given
    /// `accumulated`. Gives the costs, which are not charged yet, and what is known afterwards.
    pub fn check_args_visitor_2_1(
        &mut self,
        function: FunctionType,
        arg: &TypeSignature,
        index: usize,
        accumulated: Option<&TypeSignature>,
    ) -> (r: (
        Vec<Result<ExecutionCost, CheckError>>,
        Result<Option<TypeSignature>, CheckError>,
    ))
        requires
            old(self).ready(),
        ensures
            old(self).grew_to(final(self)),
            visited(
                final(self).log(),
                old(self).now(),
                function,
                *arg,
                index,
                pointee(accumulated),
            ) == Run::Done((Visit { costs: r.0@, outcome: r.1 }), final(self).now()),
            final(self).log() == old(self).log().push(
                Exchange::VisitArg {
                    function,
                    arg: *arg,
                    index,
                    accumulated: pointee(accumulated),
                    reply: Visit { costs: r.0@, outcome: r.1 },
                },
            ),
            call_ensures(
                A::check_args_visitor_2_1,
                (old(self).host(), function, arg, index, accumulated),
                (final(self).host(), r),
            ),
    {
        let analysis = self.take_analysis();
        let ghost before = analysis;
        let (after, reply) = analysis.check_args_visitor_2_1(function, arg, index, accumulated);
        let ghost visit = Visit { costs: reply.0@, outcome: reply.1 };
        assert(call_ensures(
            A::check_args_visitor_2_1,
            (before, function, arg, index, accumulated),
            (after, (reply.0, reply.1)),
        ));
        let ghost asked = Exchange::VisitArg {
            function,
            arg: *arg,
            index,
            accumulated: pointee(accumulated),
            reply: visit,
        };
        self.put_back(Ghost(before), Ghost(asked), after);
        reply
    }

    /// The smallest type that `left` and `right` belong to.
    pub fn least_supertype(
        &mut self,
        epoch: StacksEpochId,
        left: &TypeSignature,
        right: &TypeSignature,
    ) -> (r: Result<TypeSignature, CheckError>)
        requires
            old(self).ready(),
        ensures
            old(self).grew_to(final(self)),
            joined(final(self).log(), old(self).now(), epoch, *left, *right) == ended(
                r,
                final(self).now(),
            ),
            final(self).host() == old(self).host(),
            exists|reply: Result<TypeSignature, CheckErrors>|
                #[trigger] call_ensures(
                    A::least_supertype,
                    (&old(self).host(), epoch, left, right),
                    reply,
                ) && final(self).log() == old(self).log().push(
                    Exchange::LeastSupertype { epoch, left: *left, right: *right, reply },
                ) && r == with_reason(reply),
    {
        let reply = self.analysis().least_supertype(epoch, left, right);
        let ghost asked = Exchange::LeastSupertype { epoch, left: *left, right: *right, reply };
        self.note(Ghost(asked));
        match reply {
            Ok(found) => Ok(found),
            Err(reason) => Err(CheckError::from(reason)),
        }
    }

    /// Fails unless lists of up to `max_len` items of type `entry` may be formed.
    pub fn admit_list(&mut self, entry: &TypeSignature, max_len: u32) -> (r: Result<(), CheckError>)
        requires
            old(self).ready(),
        ensures
            old(self).grew_to(final(self)),
            list_admitted(final(self).log(), old(self).now(), *entry, max_len) == ended(
                r,
                final(self).now(),
            ),
            final(self).host() == old(self).host(),
            exists|reply: Result<(), CheckErrors>|
                #[trigger] call_ensures(
                    A::admit_list,
                    (&old(self).host(), entry, max_len),
                    reply,
                ) && final(self).log() == old(self).log().push(
                    Exchange::AdmitList { entry: *entry, max_len, reply },
                ) && r == with_reason(reply),
    {
        let reply = self.analysis().admit_list(entry, max_len);
        let ghost asked = Exchange::AdmitList { entry: *entry, max_len, reply };
        self.note(Ghost(asked));
        match reply {
            Ok(found) => Ok(found),
            Err(reason) => Err(CheckError::from(reason)),
        }
    }

    /// Fails unless optional values of type `inner` may be formed.
    pub fn admit_option(&mut self, inner: &TypeSignature) -> (r: Result<(), CheckError>)
        requires
            old(self).ready(),
        ensures
            old(self).grew_to(final(self)),
            option_admitted(final(self).log(), old(self).now(), *inner) == ended(
                r,
                final(self).now(),
            ),
            final(self).host() == old(self).host(),
            exists|reply: Result<(), CheckErrors>|
                #[trigger] call_ensures(
                    A::admit_option,
                    (&old(self).host(), inner),
                    reply,
                ) && final(self).log() == old(self).log().push(
                    Exchange::AdmitOption { inner: *inner, reply },
                ) && r == with_reason(reply),
    {
        let reply = self.analysis().admit_option(inner);
        self.note(Ghost(Exchange::AdmitOption { inner: *inner, reply }));
        match reply {
            Ok(found) => Ok(found),
            Err(reason) => Err(CheckError::from(reason)),
        }
    }

    /// The size of the description of the type `of`.
    pub fn type_size(&mut self, of: &TypeSignature) -> (r: Result<u32, CheckError>)
        requires
            old(self).ready(),
        ensures
            old(self).grew_to(final(self)),
            sized(final(self).log(), old(self).now(), *of) == ended(r, final(self).now()),
            final(self).host() == old(self).host(),
            exists|reply: Result<u32, CheckErrors>|
                #[trigger] call_ensures(
                    A::type_size,
                    (&old(self).host(), of),
                    reply,
                ) && final(self).log() == old(self).log().push(
                    Exchange::TypeSize { of: *of, reply },
                ) && r == with_reason(reply),
    {
        let reply = self.analysis().type_size(of);
        self.note(Ghost(Exchange::TypeSize { of: *of, reply }));
        match reply {
            Ok(found) => Ok(found),
            Err(reason) => Err(CheckError::from(reason)),
        }
    }

    /// How many bytes a value of type `of` is serialized to at most.
    pub fn max_serialized_size(&mut self, of: &TypeSignature) -> (r: Result<u32, CheckError>)
        requires
            old(self).ready(),
        ensures
            old(self).grew_to(final(self)),
            serialized_size(final(self).log(), old(self).now(), *of) == ended(r, final(self).now()),
            final(self).host() == old(self).host(),
            exists|reply: Result<u32, CheckErrors>|
                #[trigger] call_ensures(
                    A::max_serialized_size,
                    (&old(self).host(), of),
                    reply,
                ) && final(self).log() == old(self).log().push(
                    Exchange::MaxSerializedSize { of: *of, reply },
                ) && r == with_reason(reply),
    {
        let reply = self.analysis().max_serialized_size(of);
        self.note(Ghost(Exchange::MaxSerializedSize { of: *of, reply }));
        match reply {
            Ok(found) => Ok(found),
            Err(reason) => Err(CheckError::from(reason)),
        }
    }

    /// The type that `expr` describes.
    pub fn parse_type_repr(
        &mut self,
        epoch: StacksEpochId,
        expr: &SymbolicExpression,
    ) -> (r: Result<TypeSignature, CheckError>)
        requires
            old(self).ready(),
        ensures
            old(self).grew_to(final(self)),
            type_parsed(final(self).log(), old(self).now(), epoch, *expr) == ended(
                r,
                final(self).now(),
            ),
            exists|reply: Result<TypeSignature, CheckErrors>|
                #[trigger] call_ensures(
                    A::parse_type_repr,
                    (old(self).host(), epoch, expr),
                    (final(self).host(), reply),
                ) && final(self).log() == old(self).log().push(
                    Exchange::ParseType { epoch, expr: *expr, reply },
                ) && r == with_reason(reply),
    {
        let analysis = self.take_analysis();
        let ghost before = analysis;
        let (after, reply) = analysis.parse_type_repr(epoch, expr);
        let ghost asked = Exchange::ParseType { epoch, expr: *expr, reply };
        self.put_back(Ghost(before), Ghost(asked), after);
        assert(call_ensures(
            A::parse_type_repr,
            (old(self).host(), epoch, expr),
            (self.host(), reply),
        ));
        match reply {
            Ok(found) => Ok(found),
            Err(reason) => Err(CheckError::from(reason)),
        }
    }

    /// The type of lists of up to `max_len` items of type `entry`.
    pub fn list_of(&mut self, entry: TypeSignature, max_len: u32) -> (r: Result<
        TypeSignature,
        CheckError,
    >)
        requires
            old(self).ready(),
        ensures
            old(self).grew_to(final(self)),
            list_formed(final(self).log(), old(self).now(), entry, max_len) == ended(
                r,
                final(self).now(),
            ),
    {
        self.admit_list(&entry, max_len)?;
        Ok(
            TypeSignature::SequenceType(
                SequenceSubtype::ListType(ListTypeData { entry_type: Box::new(entry), max_len }),
            ),
        )
    }

    /// The type of optional values of type `inner`.
    pub fn new_option(&mut self, inner: TypeSignature) -> (r: Result<TypeSignature, CheckError>)
        requires
            old(self).ready(),
        ensures
            old(self).grew_to(final(self)),
            option_formed(final(self).log(), old(self).now(), inner) == ended(
                r,
                final(self).now(),
            ),
    {
        self.admit_option(&inner)?;
        Ok(TypeSignature::OptionalType(Box::new(inner)))
    }
}

} // verus!
