use lv8::action::Action;
use lv8::ast::{
    ASTNode, Block, ComparisonExpression, ComparisonOperation, Expression, LogicExpression,
    MathExpression, MathOperation, ReturnStatement, Statement,
};
use lv8::either::Either;
use lv8::error::{Error, ErrorKind, SyntaxError};
use lv8::evaluator::{Evaluator, Metadata};
use lv8::number::Float;
use lv8::request::FloatRequest;
use lv8::scope::Scope;
use lv8::value::{Native, PrimitiveTypes, ValueType};
use std::rc::Rc;

// ---- a small embedding program ----

struct Host {
    calls: Vec<(Native, Vec<ValueType>)>,
    reports: Vec<Error>,
    files: Vec<(String, fn() -> Result<ASTNode, Error>)>,
    imports: Vec<(String, String)>,
    floats: usize,
    steps: usize,
}

impl Host {
    fn new() -> Self {
        Host { calls: vec![], reports: vec![], files: vec![], imports: vec![], floats: 0, steps: 0 }
    }
}

fn widen(n: &Either<isize, Float>) -> f64 {
    match n {
        Either::Left(i) => *i as f64,
        Either::Right(f) => f64::from_bits(f.bits),
    }
}

fn compute(request: &FloatRequest) -> Float {
    let l = widen(&request.left);
    let r = widen(&request.right);
    let value = match request.operation {
        MathOperation::Add => l + r,
        MathOperation::Subtract => l - r,
        MathOperation::Multiply => l * r,
        MathOperation::Divide => l / r,
        MathOperation::Modulus => l % r,
        MathOperation::Exponentiation => l.powf(r),
    };
    Float { bits: value.to_bits() }
}

fn drive(evaluator: &mut Evaluator, host: &mut Host) -> Result<ValueType, Error> {
    let mut action = evaluator.step();
    loop {
        host.steps += 1;
        assert!(host.steps < 100_000, "the run does not end");
        action = match action {
            Action::Continue => evaluator.step(),
            Action::Finished(result) => return result,
            Action::Float(request) => {
                host.floats += 1;
                let answer = compute(&request);
                evaluator.learn(request, answer);
                evaluator.step()
            }
            Action::Call { function, arguments } => {
                let result = match function {
                    Native::Input => {
                        ValueType::Variable(PrimitiveTypes::String(String::from("typed")))
                    }
                    _ => ValueType::Variable(PrimitiveTypes::Undefined),
                };
                host.calls.push((function, arguments));
                evaluator.resume(result);
                evaluator.step()
            }
            Action::Import { directory, path } => {
                let mut program = Err(Error::syntax("no such file", SyntaxError::new("", 1, 1)));
                for (name, make) in &host.files {
                    if *name == path {
                        program = make();
                    }
                }
                let file = format!("{}/{}", directory, path);
                let home = match file.rfind('/') {
                    Some(at) => file[..at].to_string(),
                    None => String::new(),
                };
                host.imports.push((directory, path));
                evaluator.resume_import(program, Metadata { pw: home })
            }
            Action::Report(error) => {
                host.reports.push(error);
                evaluator.step()
            }
        };
    }
}

fn run(evaluator: &mut Evaluator, host: &mut Host, program: Rc<Block>) -> Result<ValueType, Error> {
    evaluator.execute(ASTNode::Block(program));
    drive(evaluator, host)
}

fn fresh() -> Evaluator {
    Evaluator::new(Metadata { pw: String::from("/scripts") })
}

fn eval(expression: Expression) -> Result<ValueType, Error> {
    let mut evaluator = fresh();
    let mut host = Host::new();
    run(&mut evaluator, &mut host, returning(vec![], expression))
}

// ---- building programs ----

fn integer(i: isize) -> Expression {
    Expression::Number(Either::Left(i))
}

fn float(f: f64) -> Expression {
    Expression::Number(Either::Right(Float { bits: f.to_bits() }))
}

fn text(s: &str) -> Expression {
    Expression::String(s.to_string())
}

fn ident(name: &str) -> Expression {
    Expression::Identifier(name.to_string())
}

fn path(names: &[&str]) -> Expression {
    Expression::Namespace(names.iter().map(|n| n.to_string()).collect())
}

fn math(left: Expression, operation: MathOperation, right: Expression) -> Expression {
    Expression::MathExpression(MathExpression::Operation {
        left: Box::new(left),
        operation,
        right: Box::new(right),
    })
}

fn compare(left: Expression, operation: ComparisonOperation, right: Expression) -> Expression {
    Expression::ComparisonExpression(ComparisonExpression {
        left: Box::new(left),
        operation,
        right: Box::new(right),
    })
}

fn and(left: Expression, right: Expression) -> Expression {
    Expression::LogicExpression(LogicExpression::And { left: Box::new(left), right: Box::new(right) })
}

fn or(left: Expression, right: Expression) -> Expression {
    Expression::LogicExpression(LogicExpression::Or { left: Box::new(left), right: Box::new(right) })
}

fn not(expr: Expression) -> Expression {
    Expression::LogicExpression(LogicExpression::Not { expr: Box::new(expr) })
}

fn assign(name: &str, value: Expression) -> Rc<Statement> {
    Rc::new(Statement::Assignment { left: vec![name.to_string()], right: Either::Left(value) })
}

fn assign_statement(names: &[&str], value: Rc<Statement>) -> Rc<Statement> {
    Rc::new(Statement::Assignment {
        left: names.iter().map(|n| n.to_string()).collect(),
        right: Either::Right(value),
    })
}

fn define(name: &str, parameters: &[&str], body: Rc<Block>) -> Rc<Statement> {
    Rc::new(Statement::FunctionDefinition {
        name: name.to_string(),
        parameters: parameters.iter().map(|n| n.to_string()).collect(),
        body,
    })
}

fn call(callee: Expression, arguments: Vec<Expression>) -> Rc<Statement> {
    Rc::new(Statement::FunctionCall {
        expression: callee,
        arguments: arguments.into_iter().map(Either::Left).collect(),
    })
}

fn module(name: &str, body: Rc<Block>) -> Rc<Statement> {
    Rc::new(Statement::ModuleDefinition { name: name.to_string(), body })
}

fn import(file: &str, ident: &str) -> Rc<Statement> {
    Rc::new(Statement::Import { path: file.to_string(), ident: ident.to_string() })
}

fn when(condition: Expression, body: Rc<Block>) -> Rc<Statement> {
    Rc::new(Statement::If { condition, body, else_if: vec![], else_body: None })
}

fn repeat(condition: Expression, body: Rc<Block>) -> Rc<Statement> {
    Rc::new(Statement::While { condition, body })
}

fn returning(statements: Vec<Rc<Statement>>, value: Expression) -> Rc<Block> {
    Rc::new(Block(statements, ReturnStatement::Return(value)))
}

fn plain(statements: Vec<Rc<Statement>>) -> Rc<Block> {
    returning(statements, Expression::Undefined)
}

// ---- reading results ----

fn as_int(result: &Result<ValueType, Error>) -> isize {
    match result {
        Ok(ValueType::Variable(PrimitiveTypes::Number(Either::Left(i)))) => *i,
        other => panic!("not an integer: {:?}", other),
    }
}

fn as_float(result: &Result<ValueType, Error>) -> f64 {
    match result {
        Ok(ValueType::Variable(PrimitiveTypes::Number(Either::Right(f)))) => f64::from_bits(f.bits),
        other => panic!("not a float: {:?}", other),
    }
}

fn as_bool(result: &Result<ValueType, Error>) -> bool {
    match result {
        Ok(ValueType::Variable(PrimitiveTypes::Boolean(b))) => *b,
        other => panic!("not a boolean: {:?}", other),
    }
}

fn is_undefined(result: &Result<ValueType, Error>) -> bool {
    matches!(result, Ok(ValueType::Variable(PrimitiveTypes::Undefined)))
}

fn is_reference_error(result: &Result<ValueType, Error>) -> bool {
    matches!(result, Err(Error { kind: ErrorKind::Reference, .. }))
}

fn is_type_error(result: &Result<ValueType, Error>) -> bool {
    matches!(result, Err(Error { kind: ErrorKind::Type, .. }))
}

fn global_int(evaluator: &Evaluator, name: &str) -> Option<isize> {
    match Scope::get(&evaluator.scopes, 0, name) {
        Some(ValueType::Variable(PrimitiveTypes::Number(Either::Left(i)))) => Some(i),
        Some(other) => panic!("not an integer: {:?}", other),
        None => None,
    }
}

// ---- math ----

#[test]
fn integer_sum_is_the_mathematical_sum() {
    assert_eq!(as_int(&eval(math(integer(2), MathOperation::Add, integer(3)))), 5);
    assert_eq!(as_int(&eval(math(integer(-7), MathOperation::Add, integer(3)))), -4);
    assert_eq!(as_int(&eval(math(integer(isize::MAX - 1), MathOperation::Add, integer(1)))), isize::MAX);
}

#[test]
fn integer_sum_out_of_range_is_a_type_error() {
    assert!(is_type_error(&eval(math(integer(isize::MAX), MathOperation::Add, integer(1)))));
    assert!(is_type_error(&eval(math(integer(isize::MIN), MathOperation::Subtract, integer(1)))));
    assert!(is_type_error(&eval(math(integer(isize::MAX), MathOperation::Multiply, integer(2)))));
}

#[test]
fn sum_with_a_float_is_a_float() {
    assert_eq!(as_float(&eval(math(integer(2), MathOperation::Add, float(0.5)))), 2.5);
    assert_eq!(as_float(&eval(math(float(0.5), MathOperation::Add, integer(2)))), 2.5);
    assert_eq!(as_float(&eval(math(float(0.5), MathOperation::Add, float(0.25)))), 0.75);
}

#[test]
fn integer_operations() {
    assert_eq!(as_int(&eval(math(integer(7), MathOperation::Subtract, integer(9)))), -2);
    assert_eq!(as_int(&eval(math(integer(-6), MathOperation::Multiply, integer(7)))), -42);
    assert_eq!(as_int(&eval(math(integer(7), MathOperation::Divide, integer(2)))), 3);
    assert_eq!(as_int(&eval(math(integer(-7), MathOperation::Divide, integer(2)))), -3);
    assert_eq!(as_int(&eval(math(integer(7), MathOperation::Divide, integer(-2)))), -3);
    assert_eq!(as_int(&eval(math(integer(-7), MathOperation::Divide, integer(-2)))), 3);
    assert_eq!(as_int(&eval(math(integer(7), MathOperation::Modulus, integer(3)))), 1);
    assert_eq!(as_int(&eval(math(integer(-7), MathOperation::Modulus, integer(3)))), -1);
    assert_eq!(as_int(&eval(math(integer(7), MathOperation::Modulus, integer(-3)))), 1);
    assert_eq!(as_int(&eval(math(integer(-7), MathOperation::Modulus, integer(-3)))), -1);
}

#[test]
fn division_by_zero_is_a_type_error() {
    assert!(is_type_error(&eval(math(integer(1), MathOperation::Divide, integer(0)))));
    assert!(is_type_error(&eval(math(integer(1), MathOperation::Modulus, integer(0)))));
    assert!(is_type_error(&eval(math(integer(isize::MIN), MathOperation::Divide, integer(-1)))));
    assert!(is_type_error(&eval(math(integer(isize::MIN), MathOperation::Modulus, integer(-1)))));
}

#[test]
fn integer_power() {
    assert_eq!(as_int(&eval(math(integer(2), MathOperation::Exponentiation, integer(10)))), 1024);
    assert_eq!(as_int(&eval(math(integer(-3), MathOperation::Exponentiation, integer(3)))), -27);
    assert_eq!(as_int(&eval(math(integer(5), MathOperation::Exponentiation, integer(0)))), 1);
    assert_eq!(as_int(&eval(math(integer(0), MathOperation::Exponentiation, integer(0)))), 1);
    assert_eq!(as_int(&eval(math(integer(0), MathOperation::Exponentiation, integer(isize::MAX)))), 0);
    assert_eq!(as_int(&eval(math(integer(1), MathOperation::Exponentiation, integer(isize::MAX)))), 1);
    assert_eq!(as_int(&eval(math(integer(-1), MathOperation::Exponentiation, integer(isize::MAX)))), -1);
    assert_eq!(as_int(&eval(math(integer(-1), MathOperation::Exponentiation, integer(4)))), 1);
}

#[test]
fn integer_power_without_result_is_a_type_error() {
    assert!(is_type_error(&eval(math(integer(2), MathOperation::Exponentiation, integer(-1)))));
    assert!(is_type_error(&eval(math(integer(2), MathOperation::Exponentiation, integer(200)))));
    assert!(is_type_error(&eval(math(integer(10), MathOperation::Exponentiation, integer(isize::MAX)))));
}

#[test]
fn float_power() {
    let root = as_float(&eval(math(float(2.0), MathOperation::Exponentiation, float(0.5))));
    assert!((root - 1.4142135623730951).abs() < 1e-12);
    // mixed operands are widened on both sides
    assert_eq!(as_float(&eval(math(integer(2), MathOperation::Exponentiation, float(3.0)))), 8.0);
    assert_eq!(as_float(&eval(math(float(2.0), MathOperation::Exponentiation, integer(3)))), 8.0);
}

#[test]
fn nested_float_math_asks_for_each_operation() {
    let mut evaluator = fresh();
    let mut host = Host::new();
    let expression = math(
        math(float(1.5), MathOperation::Multiply, integer(2)),
        MathOperation::Add,
        math(float(0.5), MathOperation::Subtract, float(0.25)),
    );
    let result = run(&mut evaluator, &mut host, returning(vec![], expression));
    assert_eq!(as_float(&result), 3.25);
    assert_eq!(host.floats, 3);
    assert!(evaluator.floats.is_empty());
}

#[test]
fn math_on_what_is_not_a_number_is_a_type_error() {
    assert!(is_type_error(&eval(math(text("a"), MathOperation::Add, integer(1)))));
    assert!(is_type_error(&eval(math(integer(1), MathOperation::Add, Expression::Null))));
}

#[test]
fn math_number_literal() {
    let literal = Expression::MathExpression(MathExpression::Number(Either::Left(9)));
    assert_eq!(as_int(&eval(literal)), 9);
}

// ---- truthiness ----

fn truthy(expression: Expression) -> bool {
    !as_bool(&eval(not(expression)))
}

#[test]
fn truthiness_table() {
    assert!(!truthy(integer(0)));
    assert!(truthy(integer(1)));
    assert!(truthy(integer(-1)));
    assert!(!truthy(float(0.0)));
    assert!(!truthy(float(-0.0)));
    assert!(!truthy(float(f64::NAN)));
    assert!(!truthy(float(f64::INFINITY)));
    assert!(!truthy(float(f64::NEG_INFINITY)));
    assert!(!truthy(float(f64::MIN_POSITIVE / 2.0)));
    assert!(truthy(float(f64::MIN_POSITIVE)));
    assert!(truthy(float(1.5)));
    assert!(truthy(float(-1.5)));
    assert!(!truthy(text("")));
    assert!(truthy(text("x")));
    assert!(truthy(Expression::Array(vec![])));
    assert!(truthy(Expression::Object(vec![])));
    assert!(!truthy(Expression::Null));
    assert!(!truthy(Expression::Undefined));
    assert!(truthy(Expression::Boolean(true)));
    assert!(!truthy(Expression::Boolean(false)));
    // a native function
    assert!(truthy(ident("print")));
}

#[test]
fn value_to_bool_agrees_with_is_normal() {
    for f in [0.0, -0.0, 1.0, -2.5, f64::NAN, f64::INFINITY, f64::MAX, f64::MIN_POSITIVE, 5e-324] {
        let value = ValueType::Variable(PrimitiveTypes::Number(Either::Right(Float {
            bits: f.to_bits(),
        })));
        assert_eq!(lv8::expression::logic_expression::value_to_bool(value), f.is_normal());
    }
}

// ---- logic ----

#[test]
fn logic_table() {
    assert!(as_bool(&eval(and(integer(1), text("x")))));
    assert!(!as_bool(&eval(and(integer(1), integer(0)))));
    assert!(!as_bool(&eval(and(integer(0), integer(1)))));
    assert!(as_bool(&eval(or(integer(0), integer(1)))));
    assert!(as_bool(&eval(or(integer(1), integer(0)))));
    assert!(!as_bool(&eval(or(integer(0), Expression::Null))));
    assert!(as_bool(&eval(not(integer(0)))));
    assert!(as_bool(&eval(Expression::LogicExpression(LogicExpression::Boolean(true)))));
}

#[test]
fn and_evaluates_its_right_operand_though_the_left_is_false() {
    assert!(is_reference_error(&eval(and(Expression::Boolean(false), ident("nowhere")))));
    assert!(is_reference_error(&eval(or(Expression::Boolean(true), ident("nowhere")))));
    // and every time
    let mut evaluator = fresh();
    let mut host = Host::new();
    for _ in 0..3 {
        let block = returning(vec![], and(Expression::Boolean(false), ident("nowhere")));
        assert!(is_reference_error(&run(&mut evaluator, &mut host, block)));
    }
}

// ---- comparison ----

#[test]
fn comparison_within_a_kind() {
    assert!(as_bool(&eval(compare(integer(1), ComparisonOperation::LessThan, integer(2)))));
    assert!(!as_bool(&eval(compare(integer(2), ComparisonOperation::LessThan, integer(2)))));
    assert!(as_bool(&eval(compare(integer(2), ComparisonOperation::LessThanOrEqual, integer(2)))));
    assert!(as_bool(&eval(compare(integer(3), ComparisonOperation::GreaterThan, integer(2)))));
    assert!(as_bool(&eval(compare(integer(2), ComparisonOperation::GreaterThanOrEqual, integer(2)))));
    assert!(as_bool(&eval(compare(integer(2), ComparisonOperation::Equal, integer(2)))));
    assert!(as_bool(&eval(compare(integer(2), ComparisonOperation::NotEqual, integer(3)))));
    assert!(as_bool(&eval(compare(text("abc"), ComparisonOperation::LessThan, text("abd")))));
    assert!(as_bool(&eval(compare(text("ab"), ComparisonOperation::LessThan, text("abc")))));
    assert!(as_bool(&eval(compare(text("b"), ComparisonOperation::GreaterThan, text("abc")))));
    assert!(as_bool(&eval(compare(text("é"), ComparisonOperation::GreaterThan, text("z")))));
    assert!(as_bool(&eval(compare(text("same"), ComparisonOperation::Equal, text("same")))));
    assert!(as_bool(&eval(compare(
        Expression::Boolean(false),
        ComparisonOperation::LessThan,
        Expression::Boolean(true)
    ))));
    assert!(as_bool(&eval(compare(Expression::Null, ComparisonOperation::Equal, Expression::Null))));
}

#[test]
fn comparison_of_floats() {
    assert!(as_bool(&eval(compare(float(1.5), ComparisonOperation::LessThan, float(2.5)))));
    assert!(as_bool(&eval(compare(float(-1.5), ComparisonOperation::LessThan, float(1.0)))));
    assert!(as_bool(&eval(compare(float(-2.5), ComparisonOperation::LessThan, float(-1.5)))));
    assert!(as_bool(&eval(compare(float(-0.0), ComparisonOperation::Equal, float(0.0)))));
    assert!(as_bool(&eval(compare(
        float(f64::NEG_INFINITY),
        ComparisonOperation::LessThan,
        float(f64::MIN)
    ))));
    assert!(as_bool(&eval(compare(
        float(f64::INFINITY),
        ComparisonOperation::GreaterThan,
        float(f64::MAX)
    ))));
    // NaN compares with nothing
    assert!(!as_bool(&eval(compare(float(f64::NAN), ComparisonOperation::Equal, float(f64::NAN)))));
    assert!(as_bool(&eval(compare(float(f64::NAN), ComparisonOperation::NotEqual, float(f64::NAN)))));
    assert!(!as_bool(&eval(compare(float(f64::NAN), ComparisonOperation::LessThan, float(1.0)))));
    assert!(!as_bool(&eval(compare(float(f64::NAN), ComparisonOperation::GreaterThanOrEqual, float(1.0)))));
}

#[test]
fn float_order_agrees_with_the_machine() {
    let samples = [
        0.0, -0.0, 1.0, -1.0, 2.5, -2.5, 1e300, -1e300, 5e-324, -5e-324, f64::INFINITY,
        f64::NEG_INFINITY, f64::NAN, f64::MAX, f64::MIN, f64::MIN_POSITIVE,
    ];
    for a in samples {
        for b in samples {
            let expected = a.partial_cmp(&b).map(|o| match o {
                std::cmp::Ordering::Less => lv8::number::Rank::Less,
                std::cmp::Ordering::Equal => lv8::number::Rank::Equal,
                std::cmp::Ordering::Greater => lv8::number::Rank::Greater,
            });
            let got = Float { bits: a.to_bits() }.compare(&Float { bits: b.to_bits() });
            assert_eq!(got, expected, "{} against {}", a, b);
        }
    }
}

#[test]
fn comparison_across_kinds_goes_by_the_kinds() {
    // null < undefined < boolean < number < string < array < object
    let ladder = || {
        vec![
            Expression::Null,
            Expression::Undefined,
            Expression::Boolean(true),
            integer(1_000_000),
            text(""),
            Expression::Array(vec![]),
            Expression::Object(vec![]),
        ]
    };
    let count = ladder().len();
    for i in 0..count {
        for j in 0..count {
            let less = as_bool(&eval(compare(
                ladder().remove(i),
                ComparisonOperation::LessThan,
                ladder().remove(j),
            )));
            assert_eq!(less, i < j, "{} against {}", i, j);
        }
    }
    // a number comes before every string, whatever they hold
    assert!(as_bool(&eval(compare(integer(9), ComparisonOperation::LessThan, text("1")))));
    // and an integer before every float
    assert!(as_bool(&eval(compare(integer(9), ComparisonOperation::LessThan, float(1.0)))));
    assert!(!as_bool(&eval(compare(integer(1), ComparisonOperation::Equal, float(1.0)))));
}

#[test]
fn comparison_of_arrays_and_objects() {
    let list = |items: Vec<isize>| Expression::Array(items.into_iter().map(integer).collect());
    assert!(as_bool(&eval(compare(list(vec![1, 2]), ComparisonOperation::LessThan, list(vec![1, 3])))));
    assert!(as_bool(&eval(compare(list(vec![1]), ComparisonOperation::LessThan, list(vec![1, 0])))));
    assert!(as_bool(&eval(compare(list(vec![2]), ComparisonOperation::GreaterThan, list(vec![1, 9])))));
    assert!(as_bool(&eval(compare(list(vec![1, 2]), ComparisonOperation::Equal, list(vec![1, 2])))));
    let record = |entries: Vec<(&str, isize)>| {
        Expression::Object(entries.into_iter().map(|(k, v)| (k.to_string(), integer(v))).collect())
    };
    // the entries are compared in the order of their keys
    assert!(as_bool(&eval(compare(
        record(vec![("b", 1), ("a", 2)]),
        ComparisonOperation::Equal,
        record(vec![("a", 2), ("b", 1)])
    ))));
    assert!(as_bool(&eval(compare(
        record(vec![("a", 1)]),
        ComparisonOperation::LessThan,
        record(vec![("b", 0)])
    ))));
    assert!(as_bool(&eval(compare(
        record(vec![("a", 1)]),
        ComparisonOperation::LessThan,
        record(vec![("a", 2)])
    ))));
}

// ---- literals, identifiers ----

#[test]
fn object_literal_is_kept_in_key_order() {
    let literal = Expression::Object(vec![
        ("pear".to_string(), integer(1)),
        ("apple".to_string(), integer(2)),
        ("fig".to_string(), integer(3)),
        ("apple".to_string(), integer(4)),
    ]);
    match eval(literal) {
        Ok(ValueType::Variable(PrimitiveTypes::Object(entries))) => {
            let keys: Vec<&str> = entries.iter().map(|(k, _)| k.as_str()).collect();
            assert_eq!(keys, vec!["apple", "fig", "pear"]);
            assert!(matches!(
                entries[0].1,
                ValueType::Variable(PrimitiveTypes::Number(Either::Left(4)))
            ));
        }
        other => panic!("not an object: {:?}", other),
    }
}

#[test]
fn array_literal_keeps_its_order() {
    match eval(Expression::Array(vec![integer(3), text("x"), Expression::Array(vec![integer(1)])])) {
        Ok(ValueType::Variable(PrimitiveTypes::Array(items))) => {
            assert_eq!(items.len(), 3);
            assert!(matches!(items[0], ValueType::Variable(PrimitiveTypes::Number(Either::Left(3)))));
            assert!(matches!(&items[1], ValueType::Variable(PrimitiveTypes::String(s)) if s == "x"));
            assert!(matches!(&items[2], ValueType::Variable(PrimitiveTypes::Array(inner)) if inner.len() == 1));
        }
        other => panic!("not an array: {:?}", other),
    }
}

#[test]
fn unbound_identifier_is_a_reference_error() {
    let result = eval(ident("nowhere"));
    assert!(is_reference_error(&result));
    match result {
        Err(error) => assert_eq!(error.message, "Identifier(\"nowhere\") variable not found"),
        Ok(_) => unreachable!(),
    }
    assert!(is_reference_error(&eval(Expression::Array(vec![integer(1), ident("nowhere")]))));
}

// ---- statements ----

#[test]
fn assignment_binds_every_target_and_gives_the_value() {
    let mut evaluator = fresh();
    let mut host = Host::new();
    let statement = Rc::new(Statement::Assignment {
        left: vec!["a".to_string(), "b".to_string()],
        right: Either::Left(integer(7)),
    });
    let program = returning(vec![statement], math(ident("a"), MathOperation::Add, ident("b")));
    assert_eq!(as_int(&run(&mut evaluator, &mut host, program)), 14);
    assert_eq!(global_int(&evaluator, "a"), Some(7));
    assert_eq!(global_int(&evaluator, "b"), Some(7));
}

#[test]
fn assignment_of_a_statement() {
    let mut evaluator = fresh();
    let mut host = Host::new();
    let program = plain(vec![assign_statement(&["x", "y"], assign("z", integer(3)))]);
    assert!(is_undefined(&run(&mut evaluator, &mut host, program)));
    assert_eq!(global_int(&evaluator, "x"), Some(3));
    assert_eq!(global_int(&evaluator, "y"), Some(3));
    assert_eq!(global_int(&evaluator, "z"), Some(3));
}

#[test]
fn later_submissions_see_earlier_bindings() {
    let mut evaluator = fresh();
    let mut host = Host::new();
    assert!(is_undefined(&run(&mut evaluator, &mut host, plain(vec![assign("a", integer(1))]))));
    assert_eq!(as_int(&run(&mut evaluator, &mut host, returning(vec![], ident("a")))), 1);
}

#[test]
fn if_block_writes_an_enclosing_binding_and_keeps_a_new_one_to_itself() {
    let mut evaluator = fresh();
    let mut host = Host::new();
    let body = plain(vec![assign("outer", integer(2)), assign("inner", integer(3))]);
    let program = plain(vec![assign("outer", integer(1)), when(Expression::Boolean(true), body)]);
    assert!(is_undefined(&run(&mut evaluator, &mut host, program)));
    assert_eq!(global_int(&evaluator, "outer"), Some(2));
    assert_eq!(global_int(&evaluator, "inner"), None);
    // the new binding lives in the block's own scope
    let last = evaluator.scopes.len() - 1;
    assert_eq!(evaluator.scopes[last].parent, Some(0));
    assert!(matches!(
        Scope::get(&evaluator.scopes, last, "inner"),
        Some(ValueType::Variable(PrimitiveTypes::Number(Either::Left(3))))
    ));
}

#[test]
fn assignment_reaches_one_scope_up_and_no_further() {
    let mut evaluator = fresh();
    let mut host = Host::new();
    let innermost = plain(vec![assign("far", integer(9))]);
    let middle = plain(vec![when(Expression::Boolean(true), innermost)]);
    let program = plain(vec![assign("far", integer(1)), when(Expression::Boolean(true), middle)]);
    assert!(is_undefined(&run(&mut evaluator, &mut host, program)));
    // two scopes up: the global binding is not written
    assert_eq!(global_int(&evaluator, "far"), Some(1));
}

#[test]
fn if_gives_the_value_of_the_block_it_runs() {
    let chain = |first: bool, second: bool, third: bool, with_else: bool| {
        let statement = Rc::new(Statement::If {
            condition: Expression::Boolean(first),
            body: returning(vec![], integer(1)),
            else_if: vec![
                (Expression::Boolean(second), returning(vec![], integer(2))),
                (Expression::Boolean(third), returning(vec![], integer(3))),
            ],
            else_body: if with_else { Some(returning(vec![], integer(4))) } else { None },
        });
        let mut evaluator = fresh();
        let mut host = Host::new();
        run(&mut evaluator, &mut host, plain(vec![assign_statement(&["r"], statement)]))
            .map(|_| Scope::get(&evaluator.scopes, 0, "r").unwrap())
    };
    assert_eq!(as_int(&chain(true, true, true, true)), 1);
    assert_eq!(as_int(&chain(false, true, true, true)), 2);
    assert_eq!(as_int(&chain(false, false, true, true)), 3);
    assert_eq!(as_int(&chain(false, false, false, true)), 4);
    assert!(is_undefined(&chain(false, false, false, false)));
}

#[test]
fn if_with_float_conditions() {
    let statement = Rc::new(Statement::If {
        condition: math(float(1.0), MathOperation::Subtract, float(1.0)),
        body: returning(vec![], integer(1)),
        else_if: vec![(math(float(1.0), MathOperation::Add, float(1.0)), returning(vec![], integer(2)))],
        else_body: None,
    });
    let mut evaluator = fresh();
    let mut host = Host::new();
    let result = run(&mut evaluator, &mut host, plain(vec![assign_statement(&["r"], statement)]));
    assert!(is_undefined(&result));
    assert_eq!(global_int(&evaluator, "r"), Some(2));
    assert_eq!(host.floats, 2);
}

#[test]
fn while_runs_until_its_condition_fails() {
    let mut evaluator = fresh();
    let mut host = Host::new();
    let body = returning(
        vec![
            assign("i", math(ident("i"), MathOperation::Add, integer(1))),
            assign("local", ident("i")),
        ],
        ident("i"),
    );
    let condition = compare(ident("i"), ComparisonOperation::LessThan, integer(5));
    let program = plain(vec![
        assign("i", integer(0)),
        assign_statement(&["last"], repeat(condition, body)),
    ]);
    assert!(is_undefined(&run(&mut evaluator, &mut host, program)));
    assert_eq!(global_int(&evaluator, "i"), Some(5));
    assert_eq!(global_int(&evaluator, "last"), Some(5));
    assert_eq!(global_int(&evaluator, "local"), None);
}

#[test]
fn while_that_never_runs_is_undefined() {
    let mut evaluator = fresh();
    let mut host = Host::new();
    let program = plain(vec![assign_statement(
        &["r"],
        repeat(Expression::Boolean(false), returning(vec![], integer(1))),
    )]);
    assert!(is_undefined(&run(&mut evaluator, &mut host, program)));
    assert!(matches!(
        Scope::get(&evaluator.scopes, 0, "r"),
        Some(ValueType::Variable(PrimitiveTypes::Undefined))
    ));
}

#[test]
fn break_does_not_leave_the_loop() {
    let mut evaluator = fresh();
    let mut host = Host::new();
    let body = Rc::new(Block(
        vec![assign("i", math(ident("i"), MathOperation::Add, integer(1)))],
        ReturnStatement::Break,
    ));
    let condition = compare(ident("i"), ComparisonOperation::LessThan, integer(3));
    let program = plain(vec![assign("i", integer(0)), repeat(condition, body)]);
    assert!(is_undefined(&run(&mut evaluator, &mut host, program)));
    assert_eq!(global_int(&evaluator, "i"), Some(3));
    let skip = Rc::new(Block(vec![], ReturnStatement::Continue));
    assert!(is_undefined(&run(&mut evaluator, &mut host, skip)));
}

// ---- functions ----

#[test]
fn function_call_binds_arguments_by_position() {
    let mut evaluator = fresh();
    let mut host = Host::new();
    let body = returning(vec![], math(ident("a"), MathOperation::Subtract, ident("b")));
    let program = plain(vec![
        define("minus", &["a", "b"], body),
        assign_statement(&["r"], call(ident("minus"), vec![integer(10), integer(4), integer(99)])),
    ]);
    assert!(is_undefined(&run(&mut evaluator, &mut host, program)));
    assert_eq!(global_int(&evaluator, "r"), Some(6));
}

#[test]
fn arguments_are_bound_in_the_scope_of_the_function_alone() {
    let mut evaluator = fresh();
    let mut host = Host::new();
    let program = plain(vec![
        assign("p", integer(1)),
        define("f", &["p"], returning(vec![], ident("p"))),
        assign_statement(&["r"], call(ident("f"), vec![integer(9)])),
    ]);
    assert!(is_undefined(&run(&mut evaluator, &mut host, program)));
    // the call sees its argument
    assert_eq!(global_int(&evaluator, "r"), Some(9));
    // and the scope of the definition keeps its own binding of the name
    assert_eq!(global_int(&evaluator, "p"), Some(1));
    assert!(matches!(
        evaluator.scopes[1].local(&"p".to_string()),
        Some(ValueType::Variable(PrimitiveTypes::Number(Either::Left(9))))
    ));
    // a second call binds anew, and again in the function's scope alone
    let again = plain(vec![assign_statement(&["r"], call(ident("f"), vec![]))]);
    assert!(is_undefined(&run(&mut evaluator, &mut host, again)));
    assert!(matches!(
        Scope::get(&evaluator.scopes, 0, "r"),
        Some(ValueType::Variable(PrimitiveTypes::Undefined))
    ));
    assert_eq!(global_int(&evaluator, "p"), Some(1));
}

#[test]
fn function_call_binds_arguments_directly() {
    // the call itself, on a function taken from the scope that binds it
    let mut evaluator = fresh();
    let mut host = Host::new();
    let program = plain(vec![
        assign("p", integer(1)),
        define("f", &["p"], returning(vec![], ident("p"))),
    ]);
    assert!(is_undefined(&run(&mut evaluator, &mut host, program)));
    let function = match Scope::get(&evaluator.scopes, 0, "f") {
        Some(ValueType::Function(function)) => function,
        other => panic!("not a function: {:?}", other),
    };
    function.call(&mut evaluator, vec![ValueType::Variable(PrimitiveTypes::Number(Either::Left(9)))]);
    let result = drive(&mut evaluator, &mut host);
    assert_eq!(as_int(&result), 9);
    assert_eq!(global_int(&evaluator, "p"), Some(1));
}

#[test]
fn missing_arguments_are_undefined() {
    let mut evaluator = fresh();
    let mut host = Host::new();
    let program = plain(vec![
        define("second", &["a", "b"], returning(vec![], ident("b"))),
        assign_statement(&["r"], call(ident("second"), vec![integer(1)])),
    ]);
    assert!(is_undefined(&run(&mut evaluator, &mut host, program)));
    assert!(matches!(
        Scope::get(&evaluator.scopes, 0, "r"),
        Some(ValueType::Variable(PrimitiveTypes::Undefined))
    ));
}

#[test]
fn function_definition_is_undefined_and_binds_the_function() {
    let mut evaluator = fresh();
    let mut host = Host::new();
    let program = Rc::new(Block(
        vec![assign_statement(&["d"], define("f", &[], plain(vec![])))],
        ReturnStatement::Return(ident("f")),
    ));
    match run(&mut evaluator, &mut host, program) {
        Ok(ValueType::Function(function)) => {
            assert_eq!(function.name, "f");
            assert_eq!(function.body.scope, 1);
            assert_eq!(evaluator.scopes[1].parent, Some(0));
            assert_eq!(evaluator.scopes[1].name, "func_f");
        }
        other => panic!("not a function: {:?}", other),
    }
    assert!(matches!(
        Scope::get(&evaluator.scopes, 0, "d"),
        Some(ValueType::Variable(PrimitiveTypes::Undefined))
    ));
}

#[test]
fn closure_shares_the_scope_of_its_definition() {
    let mut evaluator = fresh();
    let mut host = Host::new();
    let bump = returning(
        vec![assign("count", math(ident("count"), MathOperation::Add, integer(1)))],
        ident("count"),
    );
    let program = plain(vec![
        assign("count", integer(0)),
        define("bump", &[], bump),
        call(ident("bump"), vec![]),
        call(ident("bump"), vec![]),
        assign_statement(&["r"], call(ident("bump"), vec![])),
    ]);
    assert!(is_undefined(&run(&mut evaluator, &mut host, program)));
    assert_eq!(global_int(&evaluator, "count"), Some(3));
    assert_eq!(global_int(&evaluator, "r"), Some(3));
}

#[test]
fn calls_of_one_function_share_one_scope() {
    let mut evaluator = fresh();
    let mut host = Host::new();
    let program = plain(vec![
        define("keep", &["a"], plain(vec![assign("kept", ident("a"))])),
        define("peek", &[], returning(vec![], integer(0))),
        call(ident("keep"), vec![integer(5)]),
        call(ident("keep"), vec![integer(6)]),
    ]);
    assert!(is_undefined(&run(&mut evaluator, &mut host, program)));
    // the function's one scope holds what the last call has bound
    assert!(matches!(
        Scope::get(&evaluator.scopes, 1, "a"),
        Some(ValueType::Variable(PrimitiveTypes::Number(Either::Left(6))))
    ));
    assert!(matches!(
        Scope::get(&evaluator.scopes, 1, "kept"),
        Some(ValueType::Variable(PrimitiveTypes::Number(Either::Left(6))))
    ));
    assert_eq!(global_int(&evaluator, "kept"), None);
}

#[test]
fn a_call_within_a_call_overwrites_the_parameters() {
    // f(n) { if n > 0 { f(n - 1) }  return n }
    let mut evaluator = fresh();
    let mut host = Host::new();
    let again = call(ident("f"), vec![math(ident("n"), MathOperation::Subtract, integer(1))]);
    let body = returning(
        vec![when(
            compare(ident("n"), ComparisonOperation::GreaterThan, integer(0)),
            plain(vec![again]),
        )],
        ident("n"),
    );
    let program = plain(vec![
        define("f", &["n"], body),
        assign_statement(&["r"], call(ident("f"), vec![integer(2)])),
    ]);
    assert!(is_undefined(&run(&mut evaluator, &mut host, program)));
    // all the calls share the one scope of the function: the innermost call has set n to 0
    assert_eq!(global_int(&evaluator, "r"), Some(0));
}

#[test]
fn call_as_an_argument_of_a_call() {
    let mut evaluator = fresh();
    let mut host = Host::new();
    let double = returning(vec![], math(ident("x"), MathOperation::Multiply, integer(2)));
    let inner = call(ident("double"), vec![integer(4)]);
    let outer = Rc::new(Statement::FunctionCall {
        expression: ident("double"),
        arguments: vec![Either::Right(inner)],
    });
    let program = plain(vec![define("double", &["x"], double), assign_statement(&["r"], outer)]);
    assert!(is_undefined(&run(&mut evaluator, &mut host, program)));
    assert_eq!(global_int(&evaluator, "r"), Some(16));
}

#[test]
fn while_with_a_float_condition() {
    let mut evaluator = fresh();
    let mut host = Host::new();
    let body = plain(vec![assign("x", math(ident("x"), MathOperation::Subtract, float(0.5)))]);
    let program = returning(
        vec![assign("x", float(2.0)), repeat(ident("x"), body)],
        ident("x"),
    );
    // 2.0, 1.5, 1.0, 0.5 are normal; 0.0 is not
    assert_eq!(as_float(&run(&mut evaluator, &mut host, program)), 0.0);
    assert_eq!(host.floats, 4);
}

#[test]
fn arguments_are_evaluated_from_left_to_right() {
    let mut evaluator = fresh();
    let mut host = Host::new();
    let arguments = vec![
        Either::Right(assign("n", integer(1))),
        Either::Left(ident("n")),
        Either::Right(assign("n", integer(2))),
        Either::Left(ident("n")),
    ];
    let program = plain(vec![Rc::new(Statement::FunctionCall {
        expression: ident("print"),
        arguments,
    })]);
    assert!(is_undefined(&run(&mut evaluator, &mut host, program)));
    assert_eq!(host.calls.len(), 1);
    let (function, arguments) = &host.calls[0];
    assert_eq!(*function, Native::Print);
    let seen: Vec<isize> = arguments
        .iter()
        .map(|a| match a {
            ValueType::Variable(PrimitiveTypes::Number(Either::Left(i))) => *i,
            other => panic!("not an integer: {:?}", other),
        })
        .collect();
    assert_eq!(seen, vec![1, 1, 2, 2]);
}

#[test]
fn native_call_gives_what_the_host_hands_back() {
    let mut evaluator = fresh();
    let mut host = Host::new();
    let program = plain(vec![
        assign_statement(&["line"], call(ident("input"), vec![])),
        assign_statement(&["nothing"], call(ident("printl"), vec![text("a"), integer(1)])),
    ]);
    assert!(is_undefined(&run(&mut evaluator, &mut host, program)));
    assert!(matches!(
        Scope::get(&evaluator.scopes, 0, "line"),
        Some(ValueType::Variable(PrimitiveTypes::String(s))) if s == "typed"
    ));
    assert!(matches!(
        Scope::get(&evaluator.scopes, 0, "nothing"),
        Some(ValueType::Variable(PrimitiveTypes::Undefined))
    ));
    assert_eq!(host.calls.len(), 2);
    assert_eq!(host.calls[0].0, Native::Input);
    assert_eq!(host.calls[1].0, Native::Printl);
    assert_eq!(host.calls[1].1.len(), 2);
}

#[test]
fn call_of_what_is_not_a_function_is_a_type_error() {
    let mut evaluator = fresh();
    let mut host = Host::new();
    let program = plain(vec![assign("n", integer(1)), call(ident("n"), vec![])]);
    let result = run(&mut evaluator, &mut host, program);
    assert!(is_type_error(&result));
    let program = plain(vec![call(ident("nowhere"), vec![])]);
    assert!(is_reference_error(&run(&mut evaluator, &mut host, program)));
}

#[test]
fn error_ends_the_run_and_keeps_what_was_bound() {
    let mut evaluator = fresh();
    let mut host = Host::new();
    let program = plain(vec![
        assign("before", integer(1)),
        assign("x", ident("nowhere")),
        assign("after", integer(2)),
    ]);
    assert!(is_reference_error(&run(&mut evaluator, &mut host, program)));
    assert_eq!(global_int(&evaluator, "before"), Some(1));
    assert_eq!(global_int(&evaluator, "after"), None);
    assert!(evaluator.stack.is_empty());
}

// ---- modules ----

#[test]
fn module_members() {
    let mut evaluator = fresh();
    let mut host = Host::new();
    let program = plain(vec![
        assign("hidden", integer(1)),
        module("M", plain(vec![assign("x", integer(5))])),
    ]);
    assert!(is_undefined(&run(&mut evaluator, &mut host, program)));
    assert_eq!(as_int(&run(&mut evaluator, &mut host, returning(vec![], path(&["M", "x"])))), 5);
    assert!(is_undefined(&run(&mut evaluator, &mut host, returning(vec![], path(&["M", "y"])))));
    assert!(is_reference_error(&run(&mut evaluator, &mut host, returning(vec![], path(&["Z", "x"])))));
    // a member is looked for in the module's own scope only
    assert!(is_undefined(&run(&mut evaluator, &mut host, returning(vec![], path(&["M", "hidden"])))));
    assert!(is_undefined(&run(&mut evaluator, &mut host, returning(vec![], path(&["M", "x", "y"])))));
    match run(&mut evaluator, &mut host, returning(vec![], path(&["M"]))) {
        Ok(ValueType::Module(module)) => {
            assert_eq!(module.name, "M");
            assert_eq!(evaluator.scopes[module.scope].parent, Some(0));
        }
        other => panic!("not a module: {:?}", other),
    }
}

#[test]
fn module_body_sees_the_enclosing_scope() {
    let mut evaluator = fresh();
    let mut host = Host::new();
    let program = plain(vec![
        assign("base", integer(4)),
        module("M", plain(vec![assign("twice", math(ident("base"), MathOperation::Multiply, integer(2)))])),
    ]);
    assert!(is_undefined(&run(&mut evaluator, &mut host, program)));
    assert_eq!(as_int(&run(&mut evaluator, &mut host, returning(vec![], path(&["M", "twice"])))), 8);
}

#[test]
fn module_definition_fails_with_its_body() {
    let mut evaluator = fresh();
    let mut host = Host::new();
    let program = plain(vec![module("M", plain(vec![assign("x", ident("nowhere"))]))]);
    assert!(is_reference_error(&run(&mut evaluator, &mut host, program)));
    assert!(Scope::get(&evaluator.scopes, 0, "M").is_none());
}

#[test]
fn namespace_on_objects_and_other_values() {
    let mut evaluator = fresh();
    let mut host = Host::new();
    let inner = Expression::Object(vec![("deep".to_string(), integer(7))]);
    let program = plain(vec![
        assign("o", Expression::Object(vec![("a".to_string(), integer(1)), ("in".to_string(), inner)])),
        assign("n", integer(3)),
        define("f", &[], plain(vec![])),
    ]);
    assert!(is_undefined(&run(&mut evaluator, &mut host, program)));
    assert_eq!(as_int(&run(&mut evaluator, &mut host, returning(vec![], path(&["o", "a"])))), 1);
    assert_eq!(as_int(&run(&mut evaluator, &mut host, returning(vec![], path(&["o", "in", "deep"])))), 7);
    assert!(is_undefined(&run(&mut evaluator, &mut host, returning(vec![], path(&["o", "b"])))));
    assert!(is_undefined(&run(&mut evaluator, &mut host, returning(vec![], path(&["n", "a"])))));
    assert!(is_undefined(&run(&mut evaluator, &mut host, returning(vec![], path(&["f", "a"])))));
    assert!(is_undefined(&run(&mut evaluator, &mut host, returning(vec![], path(&["print", "a"])))));
    assert!(is_reference_error(&run(&mut evaluator, &mut host, returning(vec![], path(&[])))));
}

// ---- imports ----

fn counter_file() -> Result<ASTNode, Error> {
    let bump = returning(vec![assign("x", math(ident("x"), MathOperation::Add, integer(1)))], ident("x"));
    Ok(ASTNode::Block(plain(vec![assign("x", integer(1)), define("bump", &[], bump)])))
}

fn failing_file() -> Result<ASTNode, Error> {
    Ok(ASTNode::Block(plain(vec![
        assign("before", integer(1)),
        assign("x", ident("nowhere")),
        assign("after", integer(2)),
    ])))
}

fn unreadable_file() -> Result<ASTNode, Error> {
    Err(Error::syntax("expected statement", SyntaxError::new("a = = 1", 1, 5)))
}

#[test]
fn two_imports_of_one_file_are_two_modules() {
    let mut evaluator = fresh();
    let mut host = Host::new();
    host.files.push(("counter.lv8".to_string(), counter_file));
    let program = plain(vec![
        import("counter.lv8", "A"),
        import("counter.lv8", "B"),
        call(path(&["A", "bump"]), vec![]),
    ]);
    assert!(is_undefined(&run(&mut evaluator, &mut host, program)));
    assert_eq!(as_int(&run(&mut evaluator, &mut host, returning(vec![], path(&["A", "x"])))), 2);
    assert_eq!(as_int(&run(&mut evaluator, &mut host, returning(vec![], path(&["B", "x"])))), 1);
    let scope_of = |evaluator: &Evaluator, name: &str| match Scope::get(&evaluator.scopes, 0, name) {
        Some(ValueType::Module(module)) => module.scope,
        other => panic!("not a module: {:?}", other),
    };
    let a = scope_of(&evaluator, "A");
    let b = scope_of(&evaluator, "B");
    assert!(a != b);
    // each is a root of its own, with the standard library
    assert_eq!(evaluator.scopes[a].parent, None);
    assert_eq!(evaluator.scopes[b].parent, None);
    assert!(matches!(
        Scope::get(&evaluator.scopes, a, "print"),
        Some(ValueType::InternalFunction(Native::Print))
    ));
    assert_eq!(
        host.imports,
        vec![
            ("/scripts".to_string(), "counter.lv8".to_string()),
            ("/scripts".to_string(), "counter.lv8".to_string())
        ]
    );
}

#[test]
fn imported_program_does_not_see_the_importer() {
    fn reader() -> Result<ASTNode, Error> {
        Ok(ASTNode::Block(plain(vec![assign("seen", ident("secret"))])))
    }
    let mut evaluator = fresh();
    let mut host = Host::new();
    host.files.push(("reader.lv8".to_string(), reader));
    let program = plain(vec![assign("secret", integer(1)), import("reader.lv8", "R")]);
    assert!(is_undefined(&run(&mut evaluator, &mut host, program)));
    assert_eq!(host.reports.len(), 1);
    assert!(matches!(host.reports[0].kind, ErrorKind::Reference));
    assert!(is_undefined(&run(&mut evaluator, &mut host, returning(vec![], path(&["R", "seen"])))));
}

#[test]
fn failing_import_is_reported_and_bound() {
    let mut evaluator = fresh();
    let mut host = Host::new();
    host.files.push(("failing.lv8".to_string(), failing_file));
    let program = plain(vec![import("failing.lv8", "F"), assign("went_on", integer(1))]);
    assert!(is_undefined(&run(&mut evaluator, &mut host, program)));
    assert_eq!(host.reports.len(), 1);
    assert!(matches!(host.reports[0].kind, ErrorKind::Reference));
    assert_eq!(global_int(&evaluator, "went_on"), Some(1));
    assert_eq!(as_int(&run(&mut evaluator, &mut host, returning(vec![], path(&["F", "before"])))), 1);
    assert!(is_undefined(&run(&mut evaluator, &mut host, returning(vec![], path(&["F", "after"])))));
}

#[test]
fn import_that_cannot_be_parsed_is_the_error_of_the_statement() {
    let mut evaluator = fresh();
    let mut host = Host::new();
    host.files.push(("broken.lv8".to_string(), unreadable_file));
    let program = plain(vec![import("broken.lv8", "X"), assign("went_on", integer(1))]);
    let result = run(&mut evaluator, &mut host, program);
    match result {
        Err(Error { kind: ErrorKind::Syntax(syntax), message }) => {
            assert_eq!(message, "expected statement");
            assert_eq!(syntax.line, "a = = 1");
            assert_eq!(syntax.line_pos, 1);
            assert_eq!(syntax.column_pos, 5);
        }
        other => panic!("not a syntax error: {:?}", other),
    }
    assert_eq!(global_int(&evaluator, "went_on"), None);
    assert!(Scope::get(&evaluator.scopes, 0, "X").is_none());
}

#[test]
fn imports_are_resolved_against_the_directory_of_the_importing_file() {
    fn outer() -> Result<ASTNode, Error> {
        let load = plain(vec![import("deep/inner.lv8", "late")]);
        Ok(ASTNode::Block(plain(vec![
            import("inner.lv8", "inner"),
            define("load", &[], load),
            when(Expression::Boolean(true), plain(vec![import("../up.lv8", "up")])),
        ])))
    }
    fn leaf() -> Result<ASTNode, Error> {
        Ok(ASTNode::Block(plain(vec![assign("x", integer(1))])))
    }
    let mut evaluator = fresh();
    let mut host = Host::new();
    host.files.push(("lib/outer.lv8".to_string(), outer));
    host.files.push(("inner.lv8".to_string(), leaf));
    host.files.push(("../up.lv8".to_string(), leaf));
    host.files.push(("deep/inner.lv8".to_string(), leaf));
    host.files.push(("main.lv8".to_string(), leaf));
    let program = plain(vec![
        import("lib/outer.lv8", "outer"),
        // a function of the imported file, called from here, imports from there
        call(path(&["outer", "load"]), vec![]),
        import("main.lv8", "main"),
    ]);
    assert!(is_undefined(&run(&mut evaluator, &mut host, program)));
    assert!(host.reports.is_empty());
    let expected: Vec<(String, String)> = [
        ("/scripts", "lib/outer.lv8"),
        ("/scripts/lib", "inner.lv8"),
        ("/scripts/lib", "../up.lv8"),
        ("/scripts/lib", "deep/inner.lv8"),
        ("/scripts", "main.lv8"),
    ]
    .iter()
    .map(|(d, p)| (d.to_string(), p.to_string()))
    .collect();
    assert_eq!(host.imports, expected);
    assert_eq!(evaluator.directory(0), "/scripts");
}

#[test]
fn resume_import_without_an_import_changes_nothing() {
    let mut evaluator = fresh();
    let before = evaluator.scopes.len();
    let action = evaluator.resume_import(counter_file(), Metadata { pw: String::from("/x") });
    assert!(matches!(action, Action::Continue));
    assert!(evaluator.directories.is_empty());
    assert_eq!(evaluator.scopes.len(), before);
    assert!(evaluator.stack.is_empty());
}

// ---- the machine ----

#[test]
fn step_on_an_idle_evaluator_finishes_with_undefined() {
    let mut evaluator = fresh();
    match evaluator.step() {
        Action::Finished(result) => assert!(is_undefined(&result)),
        other => panic!("not finished: {:?}", other),
    }
}

#[test]
fn pending_float_leaves_the_state_as_it_was() {
    let mut evaluator = fresh();
    let program = plain(vec![assign("x", math(float(1.0), MathOperation::Add, integer(1)))]);
    evaluator.execute(ASTNode::Block(program));
    assert!(matches!(evaluator.step(), Action::Continue));
    let request = match evaluator.step() {
        Action::Float(request) => request,
        other => panic!("no request: {:?}", other),
    };
    assert_eq!(request.operation, MathOperation::Add);
    assert!(matches!(request.left, Either::Right(Float { bits }) if bits == 1.0f64.to_bits()));
    assert!(matches!(request.right, Either::Left(1)));
    assert!(Scope::get(&evaluator.scopes, 0, "x").is_none());
    // asked again, it asks again
    assert!(matches!(evaluator.step(), Action::Float(_)));
    evaluator.learn(request, Float { bits: 2.0f64.to_bits() });
    assert!(matches!(evaluator.step(), Action::Continue));
    assert!(matches!(
        Scope::get(&evaluator.scopes, 0, "x"),
        Some(ValueType::Variable(PrimitiveTypes::Number(Either::Right(Float { bits })))) if bits == 2.0f64.to_bits()
    ));
}

#[test]
fn execute_replaces_unfinished_work() {
    let mut evaluator = fresh();
    let mut host = Host::new();
    evaluator.execute(ASTNode::Block(plain(vec![assign("a", integer(1)), assign("b", integer(2))])));
    assert!(matches!(evaluator.step(), Action::Continue));
    assert!(matches!(evaluator.step(), Action::Continue));
    assert_eq!(as_int(&run(&mut evaluator, &mut host, returning(vec![], integer(3)))), 3);
    assert_eq!(global_int(&evaluator, "a"), Some(1));
    assert_eq!(global_int(&evaluator, "b"), None);
}

#[test]
fn advance_stops_where_the_host_is_needed() {
    let mut evaluator = fresh();
    let program = plain(vec![
        assign("a", integer(1)),
        assign("b", math(float(1.0), MathOperation::Add, integer(1))),
        call(ident("print"), vec![ident("a")]),
    ]);
    evaluator.execute(ASTNode::Block(program));
    // no budget, no step
    assert!(matches!(evaluator.advance(0), Action::Continue));
    assert_eq!(evaluator.stack.len(), 1);
    // one step at a time
    assert!(matches!(evaluator.advance(1), Action::Continue));
    assert!(Scope::get(&evaluator.scopes, 0, "a").is_none());
    assert!(matches!(evaluator.advance(1), Action::Continue));
    assert_eq!(global_int(&evaluator, "a"), Some(1));
    // up to the float
    let request = match evaluator.advance(1000) {
        Action::Float(request) => request,
        other => panic!("no request: {:?}", other),
    };
    evaluator.learn(request, Float { bits: 2.0f64.to_bits() });
    // up to the call
    match evaluator.advance(1000) {
        Action::Call { function, arguments } => {
            assert_eq!(function, Native::Print);
            assert_eq!(arguments.len(), 1);
        }
        other => panic!("no call: {:?}", other),
    }
    // the host hands nothing back: the call's value is undefined
    match evaluator.advance(1000) {
        Action::Finished(result) => assert!(is_undefined(&result)),
        other => panic!("not finished: {:?}", other),
    }
}

#[test]
fn long_loop_needs_no_deep_stack() {
    let mut evaluator = fresh();
    let body = plain(vec![assign("i", math(ident("i"), MathOperation::Add, integer(1)))]);
    let condition = compare(ident("i"), ComparisonOperation::LessThan, integer(2000));
    evaluator.execute(ASTNode::Block(plain(vec![assign("i", integer(0)), repeat(condition, body)])));
    let mut deepest = 0;
    loop {
        match evaluator.step() {
            Action::Continue => deepest = deepest.max(evaluator.stack.len()),
            Action::Finished(result) => {
                assert!(is_undefined(&result));
                break;
            }
            other => panic!("unexpected: {:?}", other),
        }
    }
    assert_eq!(global_int(&evaluator, "i"), Some(2000));
    assert!(deepest <= 4);
}
