use std::cell::RefCell;
use std::collections::{HashMap, VecDeque};

use clarity_natives::analysis::{
    Analysis, ClarityCostFunction, ExecutionCost, FunctionType, NativeFunctions,
    SimpleNativeFunction, TypedNativeFunction, TypingContext,
};
use clarity_natives::checker::TypeChecker;
use clarity_natives::conversions::{
    check_special_from_consensus_buff, check_special_to_consensus_buff,
};
use clarity_natives::errors::{CheckError, CheckErrors, Diagnostic};
use clarity_natives::representations::{
    ClarityName, ClarityVersion, StacksEpochId, SymbolicExpression, SymbolicExpressionType, Value,
};
use clarity_natives::sequences::{
    check_special_append, check_special_as_max_len, check_special_concat,
    check_special_element_at, check_special_filter, check_special_fold, check_special_index_of,
    check_special_len, check_special_map, check_special_replace_at, check_special_slice,
    get_simple_native_or_user_define,
};
use clarity_natives::signatures::{
    BufferLength, ListTypeData, SequenceSubtype, StringSubtype, StringUTF8Length, TypeSignature,
    MAX_VALUE_SIZE,
};

/// The costs of looking at one argument, and what is known afterwards.
type Visit = (Vec<Result<ExecutionCost, CheckErrors>>, Result<Option<TypeSignature>, CheckErrors>);

/// An analysis that answers from tables and keeps what it was asked.
struct Tables {
    types: HashMap<u64, Result<TypeSignature, CheckErrors>>,
    natives: HashMap<String, Result<TypedNativeFunction, CheckErrors>>,
    users: HashMap<String, FunctionType>,
    visits: VecDeque<Visit>,
    returns: VecDeque<Result<TypeSignature, CheckErrors>>,
    supertype: Result<TypeSignature, CheckErrors>,
    lists: Result<(), CheckErrors>,
    options: Result<(), CheckErrors>,
    serialized: Result<u32, CheckErrors>,
    described: Result<TypeSignature, CheckErrors>,
    refuse_charge: Option<usize>,
    charges: usize,
    asked: RefCell<Vec<String>>,
}

impl Tables {
    fn new() -> Tables {
        Tables {
            types: HashMap::new(),
            natives: HashMap::new(),
            users: HashMap::new(),
            visits: VecDeque::new(),
            returns: VecDeque::new(),
            supertype: Ok(TypeSignature::IntType),
            lists: Ok(()),
            options: Ok(()),
            serialized: Ok(0),
            described: Ok(TypeSignature::BoolType),
            refuse_charge: None,
            charges: 0,
            asked: RefCell::new(Vec::new()),
        }
    }

    /// The next look at an argument comes to this.
    fn visit(
        &mut self,
        costs: Vec<Result<ExecutionCost, CheckErrors>>,
        outcome: Result<Option<TypeSignature>, CheckErrors>,
    ) {
        self.visits.push_back((costs, outcome));
    }

    /// The next application of a function gives this.
    fn gives(&mut self, found: Result<TypeSignature, CheckErrors>) {
        self.returns.push_back(found);
    }

    fn ask(&self, question: String) {
        self.asked.borrow_mut().push(question);
    }

    fn charge(&mut self) -> Result<(), CheckError> {
        let this = self.charges;
        self.charges = this + 1;
        if self.refuse_charge == Some(this) {
            Err(CheckError::from(CheckErrors::Raised(99)))
        } else {
            Ok(())
        }
    }

    fn type_of(&self, expr: &SymbolicExpression) -> Result<TypeSignature, CheckError> {
        self.types.get(&expr.id).expect("untyped expression").clone().map_err(CheckError::from)
    }
}

impl Analysis for Tables {
    fn runtime_cost(
        mut self,
        function: ClarityCostFunction,
        input: u64,
    ) -> (Self, Result<(), CheckError>) {
        self.ask(format!("cost {:?} {}", function, input));
        let reply = self.charge();
        (self, reply)
    }

    fn add_cost(mut self, cost: ExecutionCost) -> (Self, Result<(), CheckError>) {
        self.ask(format!("add {}", cost.runtime));
        let reply = self.charge();
        (self, reply)
    }

    fn analysis_typecheck_cost(
        mut self,
        left: &TypeSignature,
        right: &TypeSignature,
    ) -> (Self, Result<(), CheckError>) {
        self.ask(format!("compare {:?} {:?}", left, right));
        let reply = self.charge();
        (self, reply)
    }

    fn lookup_by_name_at_version(
        &self,
        name: &ClarityName,
        version: ClarityVersion,
    ) -> Option<NativeFunctions> {
        self.ask(format!("native {} {:?}", name.0, version));
        if self.natives.contains_key(&name.0) {
            Some(NativeFunctions(name.0.len() as u64))
        } else {
            None
        }
    }

    fn type_native_function(
        &self,
        function: NativeFunctions,
    ) -> Result<TypedNativeFunction, CheckErrors> {
        self.ask(format!("type native {}", function.0));
        self.natives.iter().find(|(name, _)| name.len() as u64 == function.0).unwrap().1.clone()
    }

    fn get_function_type(&self, name: &ClarityName) -> Option<FunctionType> {
        self.ask(format!("user {}", name.0));
        self.users.get(&name.0).copied()
    }

    fn type_check(
        mut self,
        expr: &SymbolicExpression,
        context: &TypingContext,
    ) -> (Self, Result<TypeSignature, CheckError>) {
        self.ask(format!("type {} {}", expr.id, context.scope));
        let reply = self.type_of(expr);
        (self, reply)
    }

    fn type_check_expects(
        mut self,
        expr: &SymbolicExpression,
        context: &TypingContext,
        expected: &TypeSignature,
    ) -> (Self, Result<TypeSignature, CheckError>) {
        self.ask(format!("expect {} {} {:?}", expr.id, context.scope, expected));
        let reply = match self.type_of(expr) {
            Ok(found) if found != *expected => {
                Err(CheckError::from(mismatch(expected.clone(), found)))
            }
            found => found,
        };
        (self, reply)
    }

    fn set_type(
        mut self,
        expr: &SymbolicExpression,
        found: &TypeSignature,
    ) -> (Self, Result<(), CheckError>) {
        self.ask(format!("note {} {:?}", expr.id, found));
        let reply = self.charge();
        (self, reply)
    }

    fn check_args(
        mut self,
        function: FunctionType,
        args: &[TypeSignature],
        epoch: StacksEpochId,
        version: ClarityVersion,
    ) -> (Self, Result<TypeSignature, CheckError>) {
        self.ask(format!("apply {} {:?} {:?} {:?}", function.0, args, epoch, version));
        let reply = self.returns.pop_front().expect("no more returns").map_err(CheckError::from);
        (self, reply)
    }

    fn check_args_visitor_2_1(
        mut self,
        function: FunctionType,
        arg: &TypeSignature,
        index: usize,
        accumulated: Option<&TypeSignature>,
    ) -> (
        Self,
        (Vec<Result<ExecutionCost, CheckError>>, Result<Option<TypeSignature>, CheckError>),
    ) {
        self.ask(format!("visit {} {:?} {} {:?}", function.0, arg, index, accumulated));
        let (costs, outcome) = self.visits.pop_front().expect("no more visits");
        let costs = costs.into_iter().map(|cost| cost.map_err(CheckError::from)).collect();
        (self, (costs, outcome.map_err(CheckError::from)))
    }

    fn least_supertype(
        &self,
        epoch: StacksEpochId,
        left: &TypeSignature,
        right: &TypeSignature,
    ) -> Result<TypeSignature, CheckErrors> {
        self.ask(format!("join {:?} {:?} {:?}", epoch, left, right));
        self.supertype.clone()
    }

    fn admit_list(&self, entry: &TypeSignature, max_len: u32) -> Result<(), CheckErrors> {
        self.ask(format!("list {:?} {}", entry, max_len));
        self.lists.clone()
    }

    fn admit_option(&self, inner: &TypeSignature) -> Result<(), CheckErrors> {
        self.ask(format!("option {:?}", inner));
        self.options.clone()
    }

    fn type_size(&self, of: &TypeSignature) -> Result<u32, CheckErrors> {
        self.ask(format!("size {:?}", of));
        Ok(7)
    }

    fn max_serialized_size(&self, of: &TypeSignature) -> Result<u32, CheckErrors> {
        self.ask(format!("serialized {:?}", of));
        self.serialized.clone()
    }

    fn parse_type_repr(
        mut self,
        epoch: StacksEpochId,
        expr: &SymbolicExpression,
    ) -> (Self, Result<TypeSignature, CheckErrors>) {
        self.ask(format!("parse {:?} {}", epoch, expr.id));
        let reply = self.described.clone();
        (self, reply)
    }
}

const CONTEXT: TypingContext = TypingContext {
    epoch: StacksEpochId::Epoch30,
    clarity_version: ClarityVersion::Clarity3,
    scope: 5,
};

type Check = fn(
    &mut TypeChecker<Tables>,
    &[SymbolicExpression],
    &TypingContext,
) -> Result<TypeSignature, CheckError>;

/// The result of a check with an analysis, and what it asked.
fn run(
    check: Check,
    tables: Tables,
    args: &[SymbolicExpression],
) -> (Result<TypeSignature, CheckError>, Vec<String>) {
    let mut checker = TypeChecker::new(tables, ClarityVersion::Clarity2);
    let result = check(&mut checker, args, &CONTEXT);
    (result, checker.into_analysis().asked.into_inner())
}

fn fails(reason: CheckErrors) -> Result<TypeSignature, CheckError> {
    Err(CheckError::from(reason))
}

fn mismatch(expected: TypeSignature, found: TypeSignature) -> CheckErrors {
    CheckErrors::TypeError(Box::new(expected), Box::new(found))
}

fn no_sequence(found: TypeSignature) -> CheckErrors {
    CheckErrors::ExpectedSequence(Box::new(found))
}

fn atom(name: &str) -> SymbolicExpression {
    SymbolicExpression { expr: SymbolicExpressionType::Atom(ClarityName(name.to_string())), id: 1 }
}

fn expr(id: u64) -> SymbolicExpression {
    SymbolicExpression { expr: SymbolicExpressionType::List(vec![]), id }
}

fn literal(value: Value) -> SymbolicExpression {
    SymbolicExpression { expr: SymbolicExpressionType::LiteralValue(value), id: 70 }
}

fn buffer(n: u32) -> TypeSignature {
    TypeSignature::SequenceType(SequenceSubtype::BufferType(BufferLength::new(n).unwrap()))
}

fn ascii(n: u32) -> TypeSignature {
    let len = BufferLength::new(n).unwrap();
    TypeSignature::SequenceType(SequenceSubtype::StringType(StringSubtype::ASCII(len)))
}

fn utf8(n: u32) -> TypeSignature {
    let len = StringUTF8Length::new(n).unwrap();
    TypeSignature::SequenceType(SequenceSubtype::StringType(StringSubtype::UTF8(len)))
}

fn list(entry: TypeSignature, n: u32) -> TypeSignature {
    let list = ListTypeData { entry_type: Box::new(entry), max_len: n };
    TypeSignature::SequenceType(SequenceSubtype::ListType(list))
}

fn optional(inner: TypeSignature) -> TypeSignature {
    TypeSignature::OptionalType(Box::new(inner))
}

/// Tables in which the expressions `2`, `3`, .. have these types and `plus` is a plain function.
fn tables(types: Vec<TypeSignature>) -> Tables {
    let mut tables = Tables::new();
    for (i, found) in types.into_iter().enumerate() {
        tables.types.insert(i as u64 + 2, Ok(found));
    }
    tables.natives.insert(
        "plus".to_string(),
        Ok(TypedNativeFunction::Simple(SimpleNativeFunction(FunctionType(40)))),
    );
    tables
}

fn cost(runtime: u64) -> ExecutionCost {
    ExecutionCost { write_length: 0, write_count: 0, read_length: 0, read_count: 0, runtime }
}

const LOOKUP: [&str; 3] =
    ["cost AnalysisLookupFunction 0", "native plus Clarity2", "type native 4"];

const APPLYING: [(Check, usize); 3] =
    [(check_special_map, 2), (check_special_filter, 2), (check_special_fold, 3)];

// Counts of arguments

#[test]
fn wrong_counts_ask_nothing() {
    let exact: [(Check, usize); 12] = [
        (check_special_filter, 2),
        (check_special_fold, 3),
        (check_special_concat, 2),
        (check_special_append, 2),
        (check_special_as_max_len, 2),
        (check_special_len, 1),
        (check_special_element_at, 2),
        (check_special_index_of, 2),
        (check_special_slice, 3),
        (check_special_replace_at, 3),
        (check_special_to_consensus_buff, 1),
        (check_special_from_consensus_buff, 2),
    ];
    for (check, count) in exact {
        for actual in [0, count - 1, count + 1] {
            let args: Vec<SymbolicExpression> = (0..actual).map(|i| expr(i as u64)).collect();
            let (result, asked) = run(check, Tables::new(), &args);
            assert_eq!(result, fails(CheckErrors::IncorrectArgumentCount(count, actual)));
            assert!(asked.is_empty());
        }
    }
    for actual in [0, 1] {
        let args: Vec<SymbolicExpression> = (0..actual).map(|i| expr(i as u64)).collect();
        let (result, asked) = run(check_special_map, Tables::new(), &args);
        assert_eq!(result, fails(CheckErrors::RequiresAtLeastArguments(2, actual)));
        assert!(asked.is_empty());
    }
}

// Looking up functions

fn look_up(tables: Tables, name: &str) -> (Result<FunctionType, CheckError>, Vec<String>) {
    let mut checker = TypeChecker::new(tables, ClarityVersion::Clarity1);
    let result = get_simple_native_or_user_define(&ClarityName(name.to_string()), &mut checker);
    (result, checker.into_analysis().asked.into_inner())
}

fn unknown(name: &str) -> CheckError {
    let name = ClarityName(name.to_string());
    CheckError::from(CheckErrors::IllegalOrUnknownFunctionApplication(name))
}

#[test]
fn plain_functions_of_the_language_are_found() {
    let (result, asked) = look_up(tables(vec![]), "plus");
    assert_eq!(result, Ok(FunctionType(40)));
    assert_eq!(asked, ["cost AnalysisLookupFunction 0", "native plus Clarity1", "type native 4"]);
}

#[test]
fn looking_up_changes_nothing_but_the_charge() {
    for name in ["plus", "nobody"] {
        let mut checker = TypeChecker::new(tables(vec![]), ClarityVersion::Clarity2);
        let result = get_simple_native_or_user_define(&ClarityName(name.to_string()), &mut checker);
        assert_eq!(result.is_ok(), name == "plus");
        let analysis = checker.into_analysis();
        assert_eq!(analysis.charges, 1);
        assert_eq!(analysis.asked.borrow()[0], LOOKUP[0]);
    }
}

#[test]
fn contracts_do_not_redefine_the_language() {
    let mut tables = tables(vec![]);
    tables.users.insert("plus".to_string(), FunctionType(3));
    assert_eq!(look_up(tables, "plus").0, Ok(FunctionType(40)));
}

#[test]
fn special_functions_are_refused() {
    let mut tables = Tables::new();
    tables.natives.insert("let".to_string(), Ok(TypedNativeFunction::Special));
    tables.users.insert("let".to_string(), FunctionType(3));
    let (result, asked) = look_up(tables, "let");
    assert_eq!(result, Err(unknown("let")));
    assert_eq!(asked.len(), 3);
}

#[test]
fn functions_of_the_contract_are_found_where_the_language_has_none() {
    let mut tables = Tables::new();
    tables.users.insert("mine".to_string(), FunctionType(3));
    let (result, asked) = look_up(tables, "mine");
    assert_eq!(result, Ok(FunctionType(3)));
    assert_eq!(asked, ["cost AnalysisLookupFunction 0", "native mine Clarity1", "user mine"]);
    let (result, _) = look_up(Tables::new(), "nobody");
    assert_eq!(result, Err(unknown("nobody")));
}

#[test]
fn lookups_pass_errors_on() {
    let mut first = Tables::new();
    first.natives.insert("odd".to_string(), Err(CheckErrors::Raised(6)));
    assert_eq!(look_up(first, "odd").0, Err(CheckError::from(CheckErrors::Raised(6))));
    let mut second = tables(vec![]);
    second.refuse_charge = Some(0);
    let (result, asked) = look_up(second, "plus");
    assert_eq!(result, Err(CheckError::from(CheckErrors::Raised(99))));
    assert_eq!(asked.len(), 1);
}

// map

#[test]
fn map_is_as_long_as_the_shortest_sequence() {
    let mut tables = tables(vec![list(TypeSignature::IntType, 9), buffer(4), ascii(6), utf8(8)]);
    tables.visit(vec![Ok(cost(1))], Ok(None));
    tables.visit(vec![], Ok(Some(TypeSignature::BoolType)));
    tables.visit(vec![], Ok(None));
    tables.visit(vec![], Ok(Some(TypeSignature::IntType)));
    tables.gives(Ok(TypeSignature::PrincipalType));
    let (result, asked) = run(
        check_special_map,
        tables,
        &[atom("plus"), expr(2), expr(3), expr(4), expr(5)],
    );
    assert_eq!(result, Ok(list(TypeSignature::PrincipalType, 4)));
    let entries = vec![TypeSignature::IntType, buffer(1), ascii(1), utf8(1)];
    let expected = vec![
        LOOKUP[0].to_string(),
        LOOKUP[1].to_string(),
        LOOKUP[2].to_string(),
        "cost AnalysisIterableFunc 5".to_string(),
        "type 2 5".to_string(),
        format!("visit 40 {:?} 0 None", entries[0]),
        "type 3 5".to_string(),
        format!("visit 40 {:?} 1 None", entries[1]),
        "type 4 5".to_string(),
        format!("visit 40 {:?} 2 Some(BoolType)", entries[2]),
        "type 5 5".to_string(),
        format!("visit 40 {:?} 3 Some(BoolType)", entries[3]),
        format!("apply 40 {:?} Epoch30 Clarity3", entries),
        "list PrincipalType 4".to_string(),
    ];
    assert_eq!(asked, expected);
}

#[test]
fn map_counts_sequences_where_the_function_takes_another_count() {
    let sequence = list(TypeSignature::IntType, 2);
    let mut tables = tables(vec![sequence.clone(), sequence.clone(), sequence]);
    tables.visit(vec![Ok(cost(11)), Ok(cost(12))], Ok(None));
    tables.visit(vec![Ok(cost(13))], Err(CheckErrors::IncorrectArgumentCount(1, 2)));
    let args = [atom("plus"), expr(2), expr(3), expr(4)];
    let (result, asked) = run(check_special_map, tables, &args);
    let error = result.unwrap_err();
    assert_eq!(*error.err, CheckErrors::IncorrectArgumentCount(1, 3));
    assert_eq!(
        error.diagnostic,
        Diagnostic::Unplaced(Box::new(CheckErrors::IncorrectArgumentCount(1, 3)))
    );
    // the third sequence is still looked at, and what was visited is charged for
    assert_eq!(asked[8..], ["type 4 5", "add 11", "add 12", "add 13"]);
}

#[test]
fn map_passes_other_errors_of_the_function_on() {
    let mut tables = tables(vec![buffer(2)]);
    tables.visit(vec![Ok(cost(1))], Err(CheckErrors::Raised(8)));
    let (result, asked) = run(check_special_map, tables, &[atom("plus"), expr(2)]);
    assert_eq!(result, fails(CheckErrors::Raised(8)));
    assert_eq!(asked.last().unwrap(), "add 1");
}

#[test]
fn map_prefers_an_error_of_charging() {
    let mut first = tables(vec![buffer(2)]);
    first.visit(
        vec![Ok(cost(1)), Err(CheckErrors::Raised(50)), Ok(cost(2))],
        Err(CheckErrors::Raised(8)),
    );
    let (result, asked) = run(check_special_map, first, &[atom("plus"), expr(2)]);
    assert_eq!(result, fails(CheckErrors::Raised(50)));
    assert_eq!(asked.last().unwrap(), "add 1");

    let mut second = tables(vec![buffer(2)]);
    second.visit(vec![Ok(cost(1)), Ok(cost(2))], Err(CheckErrors::Raised(8)));
    second.refuse_charge = Some(2);
    let (result, asked) = run(check_special_map, second, &[atom("plus"), expr(2)]);
    assert_eq!(result, fails(CheckErrors::Raised(99)));
    assert_eq!(asked.last().unwrap(), "add 1");
}

#[test]
fn map_needs_sequences_even_after_a_failure() {
    let mut tables = tables(vec![buffer(2), TypeSignature::IntType]);
    tables.visit(vec![Ok(cost(1))], Err(CheckErrors::Raised(8)));
    let (result, asked) = run(check_special_map, tables, &[atom("plus"), expr(2), expr(3)]);
    assert_eq!(result, fails(no_sequence(TypeSignature::IntType)));
    assert_eq!(asked.last().unwrap(), "type 3 5");
}

#[test]
fn map_has_its_own_error_for_large_lists() {
    let mut tables = tables(vec![buffer(2)]);
    tables.visit(vec![], Ok(None));
    tables.gives(Ok(TypeSignature::IntType));
    tables.lists = Err(CheckErrors::ValueTooLarge);
    let (result, _) = run(check_special_map, tables, &[atom("plus"), expr(2)]);
    assert_eq!(result, fails(CheckErrors::ConstructedListTooLarge));
}

#[test]
fn applying_needs_a_name() {
    for (check, count) in APPLYING {
        let args: Vec<SymbolicExpression> = (0..count).map(|i| expr(i as u64)).collect();
        let (result, asked) = run(check, Tables::new(), &args);
        assert_eq!(result, fails(CheckErrors::NonFunctionApplication));
        assert!(asked.is_empty());
    }
}

#[test]
fn special_functions_are_not_applied() {
    for (check, count) in APPLYING {
        let mut tables = Tables::new();
        tables.natives.insert("if".to_string(), Ok(TypedNativeFunction::Special));
        let mut args = vec![atom("if")];
        args.extend((1..count).map(|i| expr(i as u64 + 1)));
        let (result, asked) = run(check, tables, &args);
        assert_eq!(result, Err(unknown("if")));
        assert_eq!(asked.len(), 3);
    }
}

// filter

#[test]
fn filter_keeps_the_type() {
    let mut tables = tables(vec![utf8(30)]);
    tables.gives(Ok(TypeSignature::BoolType));
    let (result, asked) = run(check_special_filter, tables, &[atom("plus"), expr(2)]);
    assert_eq!(result, Ok(utf8(30)));
    assert_eq!(asked[3..], [
        "cost AnalysisIterableFunc 0".to_string(),
        "type 2 5".to_string(),
        format!("apply 40 {:?} Epoch30 Clarity3", vec![utf8(1)]),
    ]);
}

#[test]
fn filter_needs_a_test() {
    let mut first = tables(vec![list(TypeSignature::IntType, 3)]);
    first.gives(Ok(TypeSignature::IntType));
    let (result, _) = run(check_special_filter, first, &[atom("plus"), expr(2)]);
    assert_eq!(result, fails(mismatch(TypeSignature::BoolType, TypeSignature::IntType)));
    let second = tables(vec![TypeSignature::TupleType(9)]);
    let (result, _) = run(check_special_filter, second, &[atom("plus"), expr(2)]);
    assert_eq!(result, fails(no_sequence(TypeSignature::TupleType(9))));
}

// fold

#[test]
fn fold_takes_its_own_result() {
    let mut tables = tables(vec![list(TypeSignature::IntType, 3), TypeSignature::NoType]);
    tables.gives(Ok(TypeSignature::BoolType));
    tables.gives(Ok(TypeSignature::PrincipalType));
    let (result, asked) = run(check_special_fold, tables, &[atom("plus"), expr(2), expr(3)]);
    assert_eq!(result, Ok(TypeSignature::PrincipalType));
    assert_eq!(asked[3..], [
        "cost AnalysisIterableFunc 0",
        "type 2 5",
        "type 3 5",
        "apply 40 [IntType, NoType] Epoch30 Clarity3",
        "apply 40 [IntType, BoolType] Epoch30 Clarity3",
    ]);
}

#[test]
fn fold_fails_where_its_function_does() {
    let mut first = tables(vec![list(TypeSignature::IntType, 3), TypeSignature::NoType]);
    first.gives(Ok(TypeSignature::BoolType));
    first.gives(Err(CheckErrors::Raised(4)));
    let (result, _) = run(check_special_fold, first, &[atom("plus"), expr(2), expr(3)]);
    assert_eq!(result, fails(CheckErrors::Raised(4)));
    let second = tables(vec![TypeSignature::UIntType, TypeSignature::NoType]);
    let (result, asked) = run(check_special_fold, second, &[atom("plus"), expr(2), expr(3)]);
    assert_eq!(result, fails(no_sequence(TypeSignature::UIntType)));
    assert_eq!(asked.last().unwrap(), "type 2 5");
}

// concat

#[test]
fn concat_adds_lengths() {
    let pairs = [
        (buffer(3), buffer(4), buffer(7)),
        (ascii(0), ascii(5), ascii(5)),
        (utf8(100), utf8(1), utf8(101)),
        (buffer(MAX_VALUE_SIZE - 1), buffer(1), buffer(MAX_VALUE_SIZE)),
    ];
    for (left, right, whole) in pairs {
        let (result, asked) = run(
            check_special_concat,
            tables(vec![left.clone(), right.clone()]),
            &[expr(2), expr(3)],
        );
        assert_eq!(result, Ok(whole.clone()));
        assert_eq!(asked, [
            "type 2 5".to_string(),
            "type 3 5".to_string(),
            "cost AnalysisIterableFunc 0".to_string(),
            format!("compare {:?} {:?}", left, right),
        ]);
        let (result, _) = run(check_special_concat, tables(vec![right, left]), &[expr(2), expr(3)]);
        assert_eq!(result, Ok(whole));
    }
}

#[test]
fn concat_with_nothing_keeps_the_type() {
    for (empty, whole) in [(buffer(0), buffer(6)), (ascii(0), ascii(6)), (utf8(0), utf8(6))] {
        for pair in [vec![empty.clone(), whole.clone()], vec![whole.clone(), empty.clone()]] {
            let (result, _) = run(check_special_concat, tables(pair), &[expr(2), expr(3)]);
            assert_eq!(result, Ok(whole.clone()));
        }
    }
}

#[test]
fn concat_joins_lists() {
    let left = list(TypeSignature::IntType, 3);
    let right = list(TypeSignature::UIntType, 6);
    let mut tables = tables(vec![left, right]);
    tables.supertype = Ok(TypeSignature::ListUnionType(2));
    let (result, asked) = run(check_special_concat, tables, &[expr(2), expr(3)]);
    assert_eq!(result, Ok(list(TypeSignature::ListUnionType(2), 9)));
    assert_eq!(asked[4..], ["join Epoch21 IntType UIntType", "list ListUnionType(2) 9"]);
}

#[test]
fn concat_refuses_what_is_too_long() {
    let halves = [
        (buffer(MAX_VALUE_SIZE), buffer(1)),
        (ascii(MAX_VALUE_SIZE), ascii(1)),
        (utf8(MAX_VALUE_SIZE / 4), utf8(1)),
    ];
    for (left, right) in halves {
        let (result, _) = run(check_special_concat, tables(vec![left, right]), &[expr(2), expr(3)]);
        assert_eq!(result, fails(CheckErrors::ValueTooLarge));
    }
    let long = list(TypeSignature::IntType, u32::MAX);
    let (result, asked) = run(
        check_special_concat,
        tables(vec![long, list(TypeSignature::IntType, 1)]),
        &[expr(2), expr(3)],
    );
    assert_eq!(result, fails(CheckErrors::MaxLengthOverflow));
    assert_eq!(asked.last().unwrap(), "join Epoch21 IntType IntType");
    let single = list(TypeSignature::IntType, 1);
    let mut refused = tables(vec![single.clone(), single]);
    refused.lists = Err(CheckErrors::Raised(12));
    let (result, _) = run(check_special_concat, refused, &[expr(2), expr(3)]);
    assert_eq!(result, fails(CheckErrors::Raised(12)));
}

#[test]
fn concat_refuses_mixed_kinds() {
    let (result, _) = run(
        check_special_concat,
        tables(vec![buffer(1), ascii(1)]),
        &[expr(2), expr(3)],
    );
    assert_eq!(result, fails(mismatch(buffer(1), ascii(1))));
    // the left type is named even where it is the right one that is no sequence
    let (result, _) = run(
        check_special_concat,
        tables(vec![buffer(1), TypeSignature::IntType]),
        &[expr(2), expr(3)],
    );
    assert_eq!(result, fails(no_sequence(buffer(1))));
    let (result, _) = run(
        check_special_concat,
        tables(vec![TypeSignature::IntType, buffer(1)]),
        &[expr(2), expr(3)],
    );
    assert_eq!(result, fails(no_sequence(TypeSignature::IntType)));
}

// append

#[test]
fn append_adds_one() {
    let mut tables = tables(vec![list(TypeSignature::IntType, 3), TypeSignature::BoolType]);
    tables.supertype = Ok(TypeSignature::PrincipalType);
    let (result, asked) = run(check_special_append, tables, &[expr(2), expr(3)]);
    assert_eq!(result, Ok(list(TypeSignature::PrincipalType, 4)));
    assert_eq!(asked, [
        "cost AnalysisIterableFunc 0",
        "type 2 5",
        "type 3 5",
        "compare IntType BoolType",
        "join Epoch21 IntType BoolType",
        "list PrincipalType 4",
    ]);
}

#[test]
fn append_needs_a_list() {
    let (result, asked) = run(
        check_special_append,
        tables(vec![buffer(3), buffer(1)]),
        &[expr(2), expr(3)],
    );
    assert_eq!(result, fails(CheckErrors::ExpectedListApplication));
    assert_eq!(asked.last().unwrap(), "type 2 5");
    let (result, _) = run(
        check_special_append,
        tables(vec![list(TypeSignature::IntType, u32::MAX), TypeSignature::IntType]),
        &[expr(2), expr(3)],
    );
    assert_eq!(result, fails(CheckErrors::MaxLengthOverflow));
    let mut apart = tables(vec![list(TypeSignature::IntType, 2), TypeSignature::BoolType]);
    apart.supertype = Err(CheckErrors::Raised(31));
    let (result, _) = run(check_special_append, apart, &[expr(2), expr(3)]);
    assert_eq!(result, fails(CheckErrors::Raised(31)));
}

// as-max-len?

#[test]
fn as_max_len_sets_the_length() {
    let cases = [
        (list(TypeSignature::BoolType, 3), list(TypeSignature::BoolType, 10)),
        (buffer(300), buffer(10)),
        (ascii(4), ascii(10)),
        (utf8(4), utf8(10)),
    ];
    for (found, limited) in cases {
        let (result, asked) = run(
            check_special_as_max_len,
            tables(vec![found]),
            &[expr(2), literal(Value::UInt(10))],
        );
        assert_eq!(result, Ok(optional(limited)));
        assert_eq!(asked[..5], [
            "size UIntType",
            "cost AnalysisTypeAnnotate 7",
            "note 70 UIntType",
            "type 2 5",
            "cost AnalysisIterableFunc 0",
        ]);
    }
}

#[test]
fn as_max_len_needs_a_literal_length() {
    let mut first = tables(vec![buffer(3), TypeSignature::UIntType]);
    first.types.insert(70, Ok(TypeSignature::IntType));
    let (result, asked) = run(check_special_as_max_len, first, &[expr(2), expr(3)]);
    assert_eq!(result, fails(mismatch(TypeSignature::UIntType, TypeSignature::UIntType)));
    assert_eq!(asked, ["type 3 5"]);
    let mut second = tables(vec![buffer(3)]);
    second.types.insert(70, Ok(TypeSignature::IntType));
    let (result, _) = run(check_special_as_max_len, second, &[expr(2), literal(Value::Int(3))]);
    assert_eq!(result, fails(mismatch(TypeSignature::UIntType, TypeSignature::IntType)));
}

#[test]
fn as_max_len_refuses_lengths_that_do_not_fit() {
    let too_long = u32::MAX as u128 + 1;
    let (result, asked) = run(
        check_special_as_max_len,
        tables(vec![buffer(3)]),
        &[expr(2), literal(Value::UInt(too_long))],
    );
    assert_eq!(result, fails(CheckErrors::MaxLengthOverflow));
    assert_eq!(asked.last().unwrap(), "note 70 UIntType");
    let over = [
        (buffer(3), MAX_VALUE_SIZE + 1),
        (ascii(3), MAX_VALUE_SIZE + 1),
        (utf8(3), MAX_VALUE_SIZE / 4 + 1),
    ];
    for (found, n) in over {
        let (result, _) = run(
            check_special_as_max_len,
            tables(vec![found]),
            &[expr(2), literal(Value::UInt(n as u128))],
        );
        assert_eq!(result, fails(CheckErrors::ValueTooLarge));
    }
    let (result, _) = run(
        check_special_as_max_len,
        tables(vec![TypeSignature::NoType]),
        &[expr(2), literal(Value::UInt(1))],
    );
    assert_eq!(result, fails(no_sequence(TypeSignature::NoType)));
}

// len

#[test]
fn len_counts_any_sequence() {
    for found in [buffer(2), ascii(2), utf8(2), list(TypeSignature::IntType, 2)] {
        let (result, asked) = run(check_special_len, tables(vec![found]), &[expr(2)]);
        assert_eq!(result, Ok(TypeSignature::UIntType));
        assert_eq!(asked, ["type 2 5", "cost AnalysisIterableFunc 0"]);
    }
    let (result, asked) = run(
        check_special_len,
        tables(vec![TypeSignature::CallableType(1)]),
        &[expr(2)],
    );
    assert_eq!(result, fails(no_sequence(TypeSignature::CallableType(1))));
    assert_eq!(asked.len(), 2);
}

#[test]
fn the_first_refusal_ends_a_check() {
    let mut tables = tables(vec![]);
    tables.types.insert(2, Err(CheckErrors::Raised(17)));
    let (result, asked) = run(check_special_len, tables, &[expr(2)]);
    assert_eq!(result, fails(CheckErrors::Raised(17)));
    assert_eq!(asked, ["type 2 5"]);
}

// element-at

#[test]
fn element_at_gives_an_item() {
    let cases = [
        (list(TypeSignature::BoolType, 3), TypeSignature::BoolType),
        (buffer(300), buffer(1)),
        (ascii(4), ascii(1)),
        (utf8(4), utf8(1)),
    ];
    for (found, item) in cases {
        let (result, asked) = run(
            check_special_element_at,
            tables(vec![found, TypeSignature::UIntType]),
            &[expr(2), expr(3)],
        );
        assert_eq!(result, Ok(optional(item)));
        assert_eq!(asked[..3], ["expect 3 5 UIntType", "type 2 5", "cost AnalysisIterableFunc 0"]);
    }
}

#[test]
fn element_at_checks_the_index_first() {
    let (result, asked) = run(
        check_special_element_at,
        tables(vec![TypeSignature::IntType, TypeSignature::IntType]),
        &[expr(2), expr(3)],
    );
    assert_eq!(result, fails(mismatch(TypeSignature::UIntType, TypeSignature::IntType)));
    assert_eq!(asked.len(), 1);
    let (result, _) = run(
        check_special_element_at,
        tables(vec![TypeSignature::IntType, TypeSignature::UIntType]),
        &[expr(2), expr(3)],
    );
    assert_eq!(result, fails(no_sequence(TypeSignature::IntType)));
    let mut deep = tables(vec![list(TypeSignature::BoolType, 3), TypeSignature::UIntType]);
    deep.options = Err(CheckErrors::Raised(32));
    let (result, asked) = run(check_special_element_at, deep, &[expr(2), expr(3)]);
    assert_eq!(result, fails(CheckErrors::Raised(32)));
    assert_eq!(asked.last().unwrap(), "option BoolType");
}

// index-of

#[test]
fn index_of_looks_for_an_item() {
    let (result, asked) = run(
        check_special_index_of,
        tables(vec![ascii(8), ascii(1)]),
        &[expr(2), expr(3)],
    );
    assert_eq!(result, Ok(optional(TypeSignature::UIntType)));
    assert_eq!(asked, [
        "cost AnalysisIterableFunc 0".to_string(),
        "type 2 5".to_string(),
        format!("expect 3 5 {:?}", ascii(1)),
        "option UIntType".to_string(),
    ]);
    let (result, _) = run(
        check_special_index_of,
        tables(vec![ascii(8), ascii(2)]),
        &[expr(2), expr(3)],
    );
    assert_eq!(result, fails(mismatch(ascii(1), ascii(2))));
    let (result, _) = run(
        check_special_index_of,
        tables(vec![TypeSignature::IntType, ascii(2)]),
        &[expr(2), expr(3)],
    );
    assert_eq!(result, fails(no_sequence(TypeSignature::IntType)));
}

#[test]
fn elements_may_be_sought_and_put_back() {
    for found in [list(TypeSignature::BoolType, 3), buffer(5), ascii(4), utf8(4)] {
        let (result, _) = run(
            check_special_element_at,
            tables(vec![found.clone(), TypeSignature::UIntType]),
            &[expr(2), expr(3)],
        );
        let item = match result {
            Ok(TypeSignature::OptionalType(item)) => *item,
            other => panic!("{:?}", other),
        };
        let (result, _) = run(
            check_special_index_of,
            tables(vec![found.clone(), item.clone()]),
            &[expr(2), expr(3)],
        );
        assert_eq!(result, Ok(optional(TypeSignature::UIntType)));
        let (result, _) = run(
            check_special_replace_at,
            tables(vec![found.clone(), TypeSignature::UIntType, item]),
            &[expr(2), expr(3), expr(4)],
        );
        assert_eq!(result, Ok(optional(found)));
    }
}

// slice?

#[test]
fn slice_keeps_the_type() {
    let uint = TypeSignature::UIntType;
    let (result, asked) = run(
        check_special_slice,
        tables(vec![buffer(20), uint.clone(), uint.clone()]),
        &[expr(2), expr(3), expr(4)],
    );
    assert_eq!(result, Ok(optional(buffer(20))));
    assert_eq!(asked, [
        "cost AnalysisIterableFunc 0".to_string(),
        "type 2 5".to_string(),
        format!("option {:?}", buffer(20)),
        "expect 3 5 UIntType".to_string(),
        "expect 4 5 UIntType".to_string(),
    ]);
    let (result, _) = run(
        check_special_slice,
        tables(vec![buffer(20), uint.clone(), TypeSignature::BoolType]),
        &[expr(2), expr(3), expr(4)],
    );
    assert_eq!(result, fails(mismatch(uint.clone(), TypeSignature::BoolType)));
    let (result, asked) = run(
        check_special_slice,
        tables(vec![uint.clone(), uint.clone(), uint.clone()]),
        &[expr(2), expr(3), expr(4)],
    );
    assert_eq!(result, fails(no_sequence(uint)));
    assert_eq!(asked.len(), 2);
}

// replace-at?

#[test]
fn replace_at_keeps_the_type() {
    let uint = TypeSignature::UIntType;
    let (result, asked) = run(
        check_special_replace_at,
        tables(vec![utf8(20), uint.clone(), utf8(1)]),
        &[expr(2), expr(3), expr(4)],
    );
    assert_eq!(result, Ok(optional(utf8(20))));
    assert_eq!(asked, [
        "cost AnalysisIterableFunc 0".to_string(),
        "type 2 5".to_string(),
        "expect 3 5 UIntType".to_string(),
        format!("expect 4 5 {:?}", utf8(1)),
        format!("option {:?}", utf8(20)),
    ]);
    let (result, _) = run(
        check_special_replace_at,
        tables(vec![list(TypeSignature::BoolType, 2), uint.clone(), TypeSignature::IntType]),
        &[expr(2), expr(3), expr(4)],
    );
    assert_eq!(result, fails(mismatch(TypeSignature::BoolType, TypeSignature::IntType)));
    let (result, _) = run(
        check_special_replace_at,
        tables(vec![TypeSignature::NoType, uint, TypeSignature::IntType]),
        &[expr(2), expr(3), expr(4)],
    );
    assert_eq!(result, fails(no_sequence(TypeSignature::NoType)));
}

// to-consensus-buff? and from-consensus-buff?

#[test]
fn to_consensus_buff_holds_the_value() {
    let mut first = tables(vec![TypeSignature::IntType]);
    first.serialized = Ok(17);
    let (result, asked) = run(check_special_to_consensus_buff, first, &[expr(2)]);
    assert_eq!(result, Ok(optional(buffer(17))));
    assert_eq!(asked, [
        "type 2 5".to_string(),
        "serialized IntType".to_string(),
        format!("option {:?}", buffer(17)),
    ]);
    let mut second = tables(vec![TypeSignature::IntType]);
    second.serialized = Ok(MAX_VALUE_SIZE + 1);
    let (result, _) = run(check_special_to_consensus_buff, second, &[expr(2)]);
    assert_eq!(result, fails(CheckErrors::ValueTooLarge));
    let mut third = tables(vec![TypeSignature::NoType]);
    third.serialized = Err(CheckErrors::Raised(20));
    let (result, _) = run(check_special_to_consensus_buff, third, &[expr(2)]);
    assert_eq!(result, fails(CheckErrors::Raised(20)));
}

#[test]
fn from_consensus_buff_gives_the_described_type() {
    let mut first = tables(vec![TypeSignature::NoType, buffer(MAX_VALUE_SIZE)]);
    first.described = Ok(TypeSignature::PrincipalType);
    let (result, asked) = run(check_special_from_consensus_buff, first, &[expr(2), expr(3)]);
    assert_eq!(result, Ok(optional(TypeSignature::PrincipalType)));
    assert_eq!(asked, [
        "parse Epoch21 2".to_string(),
        format!("expect 3 5 {:?}", buffer(1_048_576)),
        "option PrincipalType".to_string(),
    ]);
    let mut second = tables(vec![]);
    second.described = Err(CheckErrors::Raised(41));
    let (result, asked) = run(check_special_from_consensus_buff, second, &[expr(2), expr(3)]);
    assert_eq!(result, fails(CheckErrors::Raised(41)));
    assert_eq!(asked.len(), 1);
}

// What is charged

#[test]
fn iterating_is_charged_once_even_by_a_check_that_fails() {
    let mut tables = tables(vec![buffer(2), buffer(2)]);
    tables.visit(vec![Ok(cost(1))], Err(CheckErrors::Raised(8)));
    let (result, asked) = run(check_special_map, tables, &[atom("plus"), expr(2), expr(3)]);
    assert_eq!(result, fails(CheckErrors::Raised(8)));
    let charges = asked.iter().filter(|question| question.contains("AnalysisIterableFunc"));
    assert_eq!(charges.count(), 1);
}

// One check after another

#[test]
fn equal_answers_give_equal_results() {
    let args = [atom("plus"), expr(2)];
    let answers = || {
        let mut tables = tables(vec![list(TypeSignature::IntType, 6)]);
        tables.visit(vec![Ok(cost(1))], Ok(None));
        tables.gives(Ok(TypeSignature::BoolType));
        tables
    };
    let first = run(check_special_map, answers(), &args);
    assert_eq!(first, run(check_special_map, answers(), &args));
    assert_eq!(first.0, Ok(list(TypeSignature::BoolType, 6)));
}

#[test]
fn checks_follow_one_another() {
    let tables = tables(vec![buffer(3), buffer(4)]);
    let mut checker = TypeChecker::new(tables, ClarityVersion::Clarity2);
    let args = [expr(2), expr(3)];
    assert_eq!(check_special_len(&mut checker, &args[..1], &CONTEXT), Ok(TypeSignature::UIntType));
    assert_eq!(check_special_concat(&mut checker, &args, &CONTEXT), Ok(buffer(7)));
    assert_eq!(checker.clarity_version(), ClarityVersion::Clarity2);
    assert_eq!(checker.into_analysis().asked.borrow().len(), 6);
}

// Types and lengths

#[test]
fn lengths_have_limits() {
    assert_eq!(BufferLength::new(MAX_VALUE_SIZE).unwrap().get(), 1_048_576);
    assert_eq!(BufferLength::new(MAX_VALUE_SIZE + 1), Err(CheckErrors::ValueTooLarge));
    assert_eq!(StringUTF8Length::new(262_144).unwrap().get(), 262_144);
    assert_eq!(StringUTF8Length::new(262_145), Err(CheckErrors::ValueTooLarge));
    assert_eq!(StringUTF8Length::new(u32::MAX), Err(CheckErrors::ValueTooLarge));
}

#[test]
fn types_clone() {
    let both = (list(optional(utf8(3)), 2), TypeSignature::TraitReferenceType(4));
    let response = TypeSignature::ResponseType(Box::new(both));
    assert_eq!(response.clone(), response);
    let reason = CheckErrors::TypeError(Box::new(response), Box::new(ascii(2)));
    assert_eq!(reason.clone(), reason);
}
