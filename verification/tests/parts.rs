use lv8::ast::{Block, ComparisonOperation, Expression, MathOperation, ReturnStatement};
use lv8::either::Either;
use lv8::error::{Error, ErrorKind, GrammarError, SyntaxError};
use lv8::evaluator::{Evaluator, Metadata};
use lv8::expression::comparison_expression::decide;
use lv8::expression::logic_expression::{primitive_types_to_bool, value_to_bool};
use lv8::expression::math_expression::{apply_math, apply_to_integers};
use lv8::expression::namespace_expression::{
    evaluate_namespace_expression, read_property_of_value, read_property_of_variable,
};
use lv8::expression::{evaluate_expression, put};
use lv8::number::{
    checked_difference, checked_power, checked_product, checked_quotient, checked_remainder,
    checked_sum, Float, Rank,
};
use lv8::order::{compare_integers, compare_numbers, compare_text};
use lv8::outcome::Outcome;
use lv8::repl::{asks_to_exit, Repl};
use lv8::request::FloatRequest;
use lv8::scope::Scope;
use lv8::stdlib::{build_standard_library, input};
use lv8::text::{decimal, is_whitespace, trim};
use lv8::value::{Function, Module, Native, PrimitiveTypes, ValueType};
use std::rc::Rc;

fn whole(i: isize) -> ValueType {
    ValueType::Variable(PrimitiveTypes::Number(Either::Left(i)))
}

fn fraction(f: f64) -> ValueType {
    ValueType::Variable(PrimitiveTypes::Number(Either::Right(Float { bits: f.to_bits() })))
}

fn words(s: &str) -> ValueType {
    ValueType::Variable(PrimitiveTypes::String(s.to_string()))
}

fn is_whole(value: &Option<ValueType>, expected: isize) -> bool {
    matches!(value, Some(ValueType::Variable(PrimitiveTypes::Number(Either::Left(i)))) if *i == expected)
}

// ---- errors ----

#[test]
fn error_constructors() {
    let reference = Error::reference("x not found");
    assert_eq!(reference.message, "x not found");
    assert!(matches!(reference.kind, ErrorKind::Reference));
    let kind = Error::type_("not callable");
    assert_eq!(kind.message, "not callable");
    assert!(matches!(kind.kind, ErrorKind::Type));
    let syntax = Error::syntax("unexpected token", SyntaxError::new("a = ", 3, 5));
    assert_eq!(syntax.message, "unexpected token");
    match syntax.kind {
        ErrorKind::Syntax(at) => {
            assert_eq!(at.line, "a = ");
            assert_eq!(at.line_pos, 3);
            assert_eq!(at.column_pos, 5);
        }
        _ => panic!("not a syntax error"),
    }
    assert_eq!(GrammarError::with_message("bad").0, "bad");
}

#[test]
fn error_reports() {
    assert_eq!(Error::reference("x not found").report(), "ReferenceError: x not found");
    assert_eq!(Error::type_("not callable").report(), "TypeError: not callable");
    let syntax = Error::syntax("unexpected token", SyntaxError::new("a = = 1", 12, 5));
    assert_eq!(
        syntax.report(),
        "SyntaxError: unexpected token\n  --> at line 12:5\n  |\n12 | a = = 1\n  |     ^\n"
    );
    assert_eq!(
        SyntaxError::new("", 1, 0).report(),
        "  --> at line 1:0\n  |\n1 | \n  |^\n"
    );
}

#[test]
fn decimal_text() {
    assert_eq!(decimal(0), "0");
    assert_eq!(decimal(7), "7");
    assert_eq!(decimal(10), "10");
    assert_eq!(decimal(1234567890), "1234567890");
    assert_eq!(decimal(usize::MAX), usize::MAX.to_string());
}

// ---- the session ----

#[test]
fn prompt_counts_the_accepted_lines() {
    let mut session = Repl::new();
    assert_eq!(session.prompt(), "LV8(0)> ");
    assert!(session.accept("a = 1"));
    assert_eq!(session.prompt(), "LV8(1)> ");
    // a line that cannot be parsed is counted too
    assert!(session.accept("= = ="));
    assert!(session.accept(""));
    assert_eq!(session.prompt(), "LV8(3)> ");
    assert!(!session.accept("exit"));
    assert_eq!(session.lines, 3);
    let mut full = Repl { lines: usize::MAX };
    assert!(full.accept("a"));
    assert_eq!(full.lines, usize::MAX);
}

#[test]
fn exit_ends_the_session() {
    assert!(asks_to_exit("exit"));
    assert!(asks_to_exit("  exit"));
    assert!(asks_to_exit("exit \t\n"));
    assert!(asks_to_exit("\u{a0}exit\u{3000}"));
    assert!(!asks_to_exit(""));
    assert!(!asks_to_exit("   "));
    assert!(!asks_to_exit("exit()"));
    assert!(!asks_to_exit("ex it"));
    assert!(!asks_to_exit("Exit"));
    assert!(!asks_to_exit("exits"));
    assert!(!asks_to_exit("quit"));
    assert!(!asks_to_exit("a exit"));
    for line in ["exit", " exit ", "exit x", "\t", "é exit", "exit\r\n", "exi", "texit"] {
        assert_eq!(asks_to_exit(line), line.trim() == "exit", "{:?}", line);
    }
}

#[test]
fn trim_takes_the_white_space_around_a_line() {
    for line in ["", " ", "a", " a", "a ", "\t a b \n", "\u{2003}x\u{85}", "é  ", "  日本語", "a\u{200b}"] {
        assert_eq!(trim(line), line.trim(), "{:?}", line);
    }
    assert!(matches!(
        input("  typed text \r\n"),
        ValueType::Variable(PrimitiveTypes::String(s)) if s == "typed text"
    ));
}

#[test]
fn whitespace_is_what_trims() {
    for code in 0..0x3100u32 {
        if let Some(c) = char::from_u32(code) {
            assert_eq!(is_whitespace(c), c.is_whitespace(), "{:x}", code);
        }
    }
}

// ---- numbers ----

#[test]
fn checked_integer_arithmetic() {
    assert_eq!(checked_sum(2, 3), Some(5));
    assert_eq!(checked_sum(isize::MAX, 1), None);
    assert_eq!(checked_difference(2, 3), Some(-1));
    assert_eq!(checked_difference(isize::MIN, 1), None);
    assert_eq!(checked_product(-4, 5), Some(-20));
    assert_eq!(checked_product(isize::MIN, -1), None);
    assert_eq!(checked_quotient(-7, 2), Some(-3));
    assert_eq!(checked_quotient(7, 0), None);
    assert_eq!(checked_quotient(isize::MIN, -1), None);
    assert_eq!(checked_remainder(-7, 2), Some(-1));
    assert_eq!(checked_remainder(7, -2), Some(1));
    assert_eq!(checked_remainder(7, 0), None);
    assert_eq!(checked_remainder(isize::MIN, -1), None);
    assert_eq!(checked_power(2, 10), Some(1024));
    assert_eq!(checked_power(-2, 63), Some(isize::MIN));
    assert_eq!(checked_power(2, 63), None);
    assert_eq!(checked_power(3, -1), None);
    assert_eq!(checked_power(0, 0), Some(1));
    assert_eq!(checked_power(7, 1), Some(7));
    for a in -12isize..=12 {
        for b in -12isize..=12 {
            assert_eq!(checked_quotient(a, b), a.checked_div(b));
            assert_eq!(checked_remainder(a, b), a.checked_rem(b));
            if b >= 0 {
                assert_eq!(checked_power(a, b), a.checked_pow(b as u32));
            }
        }
    }
}

#[test]
fn integer_operations_by_name() {
    assert_eq!(apply_to_integers(MathOperation::Add, 1, 2), Some(3));
    assert_eq!(apply_to_integers(MathOperation::Subtract, 1, 2), Some(-1));
    assert_eq!(apply_to_integers(MathOperation::Multiply, 3, 2), Some(6));
    assert_eq!(apply_to_integers(MathOperation::Divide, 9, 2), Some(4));
    assert_eq!(apply_to_integers(MathOperation::Modulus, 9, 2), Some(1));
    assert_eq!(apply_to_integers(MathOperation::Exponentiation, 9, 2), Some(81));
}

#[test]
fn float_classes() {
    let float = |f: f64| Float { bits: f.to_bits() };
    for f in [0.0, -0.0, 1.0, -1.0, f64::NAN, f64::INFINITY, f64::NEG_INFINITY, 5e-324, 2.2250738585072014e-308, f64::MAX] {
        assert_eq!(float(f).is_nan(), f.is_nan(), "{}", f);
        assert_eq!(float(f).is_normal(), f.is_normal(), "{}", f);
    }
}

#[test]
fn math_with_known_answers() {
    let request = FloatRequest {
        operation: MathOperation::Add,
        left: Either::Left(1),
        right: Either::Right(Float { bits: 0.5f64.to_bits() }),
    };
    let known = vec![
        (request.duplicate(), Float { bits: 1.5f64.to_bits() }),
        (request.duplicate(), Float { bits: 9.0f64.to_bits() }),
    ];
    // the first answer for a request stands
    assert_eq!(request.find(&known), Some(Float { bits: 1.5f64.to_bits() }));
    match apply_math(&known, MathOperation::Add, &whole(1), &fraction(0.5)) {
        Outcome::Value(ValueType::Variable(PrimitiveTypes::Number(Either::Right(f)))) => {
            assert_eq!(f64::from_bits(f.bits), 1.5)
        }
        other => panic!("not a float: {:?}", other),
    }
    // another request is pending
    match apply_math(&known, MathOperation::Add, &fraction(0.5), &whole(1)) {
        Outcome::Pending(request) => {
            assert!(matches!(request.right, Either::Left(1)));
            assert!(!request.same(&known[0].0));
        }
        other => panic!("not pending: {:?}", other),
    }
    assert!(matches!(
        apply_math(&known, MathOperation::Add, &words("a"), &whole(1)),
        Outcome::Failure(Error { kind: ErrorKind::Type, .. })
    ));
}

// ---- order ----

#[test]
fn ranks() {
    assert_eq!(compare_integers(1, 2), Rank::Less);
    assert_eq!(compare_integers(2, 2), Rank::Equal);
    assert_eq!(compare_integers(3, 2), Rank::Greater);
    for (a, b) in [("", ""), ("", "a"), ("a", ""), ("abc", "abd"), ("abc", "ab"), ("ä", "z"), ("Z", "a"), ("日本", "日本語")] {
        let expected = match a.cmp(b) {
            std::cmp::Ordering::Less => Rank::Less,
            std::cmp::Ordering::Equal => Rank::Equal,
            std::cmp::Ordering::Greater => Rank::Greater,
        };
        assert_eq!(compare_text(a, b), expected, "{:?} against {:?}", a, b);
    }
    let float = |f: f64| Either::Right(Float { bits: f.to_bits() });
    assert_eq!(compare_numbers(&Either::Left(5), &float(1.0)), Some(Rank::Less));
    assert_eq!(compare_numbers(&float(1.0), &Either::Left(5)), Some(Rank::Greater));
    assert_eq!(compare_numbers(&float(f64::NAN), &float(1.0)), None);
    assert_eq!(compare_numbers(&Either::Left(5), &Either::Left(5)), Some(Rank::Equal));
}

#[test]
fn bindings_are_ordered_by_kind_then_content() {
    let function = |name: &str| {
        ValueType::Function(Function::new(
            name.to_string(),
            lv8::block::Block::new(Rc::new(Block(vec![], ReturnStatement::Break)), 0),
            vec![],
        ))
    };
    let module = |name: &str, scope: usize| ValueType::Module(Module { name: name.to_string(), scope });
    // function < plain value < native function < module
    assert_eq!(function("z").compare(&whole(0)), Some(Rank::Less));
    assert_eq!(whole(0).compare(&ValueType::InternalFunction(Native::Print)), Some(Rank::Less));
    assert_eq!(
        ValueType::InternalFunction(Native::Print).compare(&module("a", 0)),
        Some(Rank::Less)
    );
    assert_eq!(module("a", 0).compare(&function("a")), Some(Rank::Greater));
    // functions and modules by name alone
    assert_eq!(function("a").compare(&function("b")), Some(Rank::Less));
    assert_eq!(function("a").compare(&function("a")), Some(Rank::Equal));
    assert_eq!(module("m", 1).compare(&module("m", 2)), Some(Rank::Equal));
    assert_eq!(
        ValueType::InternalFunction(Native::Printl).compare(&ValueType::InternalFunction(Native::Inspect)),
        Some(Rank::Less)
    );
    // an array with a NaN compares with nothing once the NaN is reached
    let list = |items: Vec<ValueType>| ValueType::Variable(PrimitiveTypes::Array(items));
    assert_eq!(list(vec![fraction(f64::NAN)]).compare(&list(vec![fraction(f64::NAN)])), None);
    assert_eq!(list(vec![whole(1), fraction(f64::NAN)]).compare(&list(vec![whole(2)])), Some(Rank::Less));
}

#[test]
fn comparisons_decide_by_rank() {
    let table = [
        (ComparisonOperation::Equal, [false, true, false, false]),
        (ComparisonOperation::NotEqual, [true, false, true, true]),
        (ComparisonOperation::GreaterThan, [false, false, true, false]),
        (ComparisonOperation::LessThan, [true, false, false, false]),
        (ComparisonOperation::GreaterThanOrEqual, [false, true, true, false]),
        (ComparisonOperation::LessThanOrEqual, [true, true, false, false]),
    ];
    for (operation, expected) in table {
        assert_eq!(decide(operation, Some(Rank::Less)), expected[0]);
        assert_eq!(decide(operation, Some(Rank::Equal)), expected[1]);
        assert_eq!(decide(operation, Some(Rank::Greater)), expected[2]);
        assert_eq!(decide(operation, None), expected[3]);
    }
}

// ---- truthiness ----

#[test]
fn truthiness_of_bindings() {
    assert!(!primitive_types_to_bool(PrimitiveTypes::Null));
    assert!(!primitive_types_to_bool(PrimitiveTypes::Undefined));
    assert!(primitive_types_to_bool(PrimitiveTypes::Boolean(true)));
    assert!(!primitive_types_to_bool(PrimitiveTypes::Number(Either::Left(0))));
    assert!(primitive_types_to_bool(PrimitiveTypes::Number(Either::Left(1))));
    assert!(!primitive_types_to_bool(PrimitiveTypes::String(String::new())));
    assert!(primitive_types_to_bool(PrimitiveTypes::String("x".to_string())));
    assert!(primitive_types_to_bool(PrimitiveTypes::Array(vec![])));
    assert!(primitive_types_to_bool(PrimitiveTypes::Object(vec![])));
    assert!(!value_to_bool(fraction(0.0)));
    assert!(!value_to_bool(fraction(f64::NAN)));
    assert!(!value_to_bool(fraction(f64::INFINITY)));
    assert!(value_to_bool(fraction(0.1)));
    assert!(value_to_bool(ValueType::InternalFunction(Native::Input)));
    assert!(value_to_bool(ValueType::Module(Module { name: "m".to_string(), scope: 0 })));
}

// ---- scopes ----

#[test]
fn scope_lookup_goes_up_the_whole_chain() {
    let mut scopes = vec![Scope::new("global")];
    scopes.push(Scope::with_parent("a", 0));
    scopes.push(Scope::with_parent("b", 1));
    scopes.push(Scope::with_parent("c", 2));
    Scope::set(&mut scopes, 0, "x", whole(1));
    assert!(is_whole(&Scope::get(&scopes, 3, "x"), 1));
    assert!(Scope::get(&scopes, 3, "y").is_none());
    assert!(Scope::get(&scopes, 9, "x").is_none());
    assert_eq!(scopes[0].name, "global");
    assert_eq!(scopes[0].parent, None);
    assert_eq!(scopes[3].parent, Some(2));
}

#[test]
fn scope_assignment_reaches_one_level_up() {
    let mut scopes = vec![Scope::new("global")];
    scopes.push(Scope::with_parent("a", 0));
    scopes.push(Scope::with_parent("b", 1));
    Scope::set(&mut scopes, 0, "top", whole(1));
    Scope::set(&mut scopes, 1, "mid", whole(2));
    // bound in the parent: the parent's binding is written
    Scope::set(&mut scopes, 2, "mid", whole(20));
    assert!(is_whole(&Scope::get(&scopes, 1, "mid"), 20));
    assert_eq!(scopes[2].variables.len(), 0);
    // bound two levels up: a new local binding shadows it
    Scope::set(&mut scopes, 2, "top", whole(10));
    assert!(is_whole(&Scope::get(&scopes, 2, "top"), 10));
    assert!(is_whole(&Scope::get(&scopes, 1, "top"), 1));
    assert!(is_whole(&Scope::get(&scopes, 0, "top"), 1));
    // bound locally: the local binding is written, though the parent binds it too
    Scope::set(&mut scopes, 1, "top", whole(5));
    Scope::set(&mut scopes, 2, "top", whole(11));
    assert!(is_whole(&Scope::get(&scopes, 2, "top"), 11));
    assert!(is_whole(&Scope::get(&scopes, 1, "top"), 5));
    // bound nowhere: a new local binding
    Scope::set(&mut scopes, 2, "fresh", whole(3));
    assert!(is_whole(&Scope::get(&scopes, 2, "fresh"), 3));
    assert!(Scope::get(&scopes, 1, "fresh").is_none());
    // the most recent write wins, and a name is kept once
    Scope::set(&mut scopes, 0, "top", whole(7));
    assert!(is_whole(&Scope::get(&scopes, 0, "top"), 7));
    assert_eq!(scopes[0].variables.len(), 1);
    // out of range: nothing happens
    Scope::set(&mut scopes, 9, "x", whole(1));
    assert_eq!(scopes.len(), 3);
}

#[test]
fn a_parent_that_is_not_earlier_is_no_parent() {
    let mut scopes = vec![Scope::with_parent("odd", 1), Scope::with_parent("loop", 1)];
    Scope::set(&mut scopes, 1, "x", whole(1));
    assert!(Scope::get(&scopes, 0, "x").is_none());
    assert!(is_whole(&Scope::get(&scopes, 1, "x"), 1));
}

#[test]
fn scope_extend_writes_in_order() {
    let mut scope = Scope::new("global");
    scope.bind("a".to_string(), whole(0));
    scope.extend(vec![
        ("a".to_string(), whole(1)),
        ("b".to_string(), whole(2)),
        ("a".to_string(), whole(3)),
    ]);
    assert!(is_whole(&scope.local(&"a".to_string()), 3));
    assert!(is_whole(&scope.local(&"b".to_string()), 2));
    assert!(scope.local(&"c".to_string()).is_none());
    assert!(scope.binds(&"b".to_string()));
    assert_eq!(scope.variables.len(), 2);
    let scopes = vec![scope];
    assert_eq!(Scope::target(&scopes, 0, &"a".to_string()), 0);
}

#[test]
fn standard_library_names() {
    let library = build_standard_library();
    let names: Vec<&str> = library.iter().map(|(name, _)| name.as_str()).collect();
    assert_eq!(names, vec!["printl", "print", "input", "inspect"]);
    assert!(matches!(library[0].1, ValueType::InternalFunction(Native::Printl)));
    assert!(matches!(library[1].1, ValueType::InternalFunction(Native::Print)));
    assert!(matches!(library[2].1, ValueType::InternalFunction(Native::Input)));
    assert!(matches!(library[3].1, ValueType::InternalFunction(Native::Inspect)));
    let evaluator = Evaluator::new(Metadata { pw: "/tmp".to_string() });
    assert_eq!(evaluator.metadata.pw, "/tmp");
    assert!(matches!(
        Scope::get(&evaluator.scopes, 0, "inspect"),
        Some(ValueType::InternalFunction(Native::Inspect))
    ));
}

// ---- objects and paths ----

#[test]
fn put_keeps_the_keys_in_order() {
    let mut entries: Vec<(String, ValueType)> = vec![];
    for (key, value) in [("m", 1), ("a", 2), ("z", 3), ("m", 4), ("b", 5), ("", 6)] {
        put(&mut entries, key.to_string(), whole(value));
    }
    let seen: Vec<(&str, isize)> = entries
        .iter()
        .map(|(key, value)| match value {
            ValueType::Variable(PrimitiveTypes::Number(Either::Left(i))) => (key.as_str(), *i),
            other => panic!("not an integer: {:?}", other),
        })
        .collect();
    assert_eq!(seen, vec![("", 6), ("a", 2), ("b", 5), ("m", 4), ("z", 3)]);
}

#[test]
fn properties() {
    let object = PrimitiveTypes::Object(vec![("a".to_string(), whole(1)), ("b".to_string(), whole(2))]);
    assert!(is_whole(&Some(read_property_of_variable(&object, &"b".to_string())), 2));
    assert!(matches!(
        read_property_of_variable(&object, &"c".to_string()),
        ValueType::Variable(PrimitiveTypes::Undefined)
    ));
    assert!(matches!(
        read_property_of_variable(&PrimitiveTypes::Array(vec![whole(1)]), &"a".to_string()),
        ValueType::Variable(PrimitiveTypes::Undefined)
    ));
    let mut evaluator = Evaluator::new(Metadata { pw: String::new() });
    evaluator.scopes.push(Scope::with_parent("M", 0));
    Scope::set(&mut evaluator.scopes, 0, "outer", whole(1));
    Scope::set(&mut evaluator.scopes, 1, "x", whole(5));
    let module = ValueType::Module(Module { name: "M".to_string(), scope: 1 });
    assert!(is_whole(&Some(read_property_of_value(&evaluator, &module, &"x".to_string())), 5));
    assert!(matches!(
        read_property_of_value(&evaluator, &module, &"outer".to_string()),
        ValueType::Variable(PrimitiveTypes::Undefined)
    ));
    let lost = ValueType::Module(Module { name: "L".to_string(), scope: 99 });
    assert!(matches!(
        read_property_of_value(&evaluator, &lost, &"x".to_string()),
        ValueType::Variable(PrimitiveTypes::Undefined)
    ));
    Scope::set(&mut evaluator.scopes, 0, "M", module);
    let path = vec!["M".to_string(), "x".to_string()];
    assert!(matches!(
        evaluate_namespace_expression(&evaluator, 0, &path),
        Outcome::Value(ValueType::Variable(PrimitiveTypes::Number(Either::Left(5))))
    ));
    match evaluate_namespace_expression(&evaluator, 0, &vec!["Z".to_string(), "x".to_string()]) {
        Outcome::Failure(error) => {
            assert!(matches!(error.kind, ErrorKind::Reference));
            assert_eq!(error.message, "cannot read properties of \"Z\"");
        }
        other => panic!("no error: {:?}", other),
    }
}

#[test]
fn expressions_read_and_change_nothing() {
    let mut evaluator = Evaluator::new(Metadata { pw: String::new() });
    Scope::set(&mut evaluator.scopes, 0, "x", whole(4));
    let expression = Expression::Array(vec![
        Expression::Identifier("x".to_string()),
        Expression::String("s".to_string()),
    ]);
    for _ in 0..2 {
        match evaluate_expression(&evaluator, 0, &expression) {
            Outcome::Value(ValueType::Variable(PrimitiveTypes::Array(items))) => {
                assert!(is_whole(&Some(items[0].duplicate()), 4));
            }
            other => panic!("not an array: {:?}", other),
        }
    }
    assert_eq!(evaluator.scopes.len(), 1);
    assert_eq!(evaluator.scopes[0].variables.len(), 5);
}

#[test]
fn copies_are_deep_for_values_and_shared_for_code() {
    let block = Rc::new(Block(vec![], ReturnStatement::Continue));
    let function = Function::new(
        "f".to_string(),
        lv8::block::Block::new(block.clone(), 3),
        vec!["a".to_string(), "b".to_string()],
    );
    let copy = function.duplicate();
    assert_eq!(copy.name, "f");
    assert_eq!(copy.expected_parameters, vec!["a".to_string(), "b".to_string()]);
    assert_eq!(copy.body.scope, 3);
    assert!(Rc::ptr_eq(&copy.body.block, &block));
    let nested = ValueType::Variable(PrimitiveTypes::Array(vec![
        whole(1),
        ValueType::Variable(PrimitiveTypes::Object(vec![("k".to_string(), words("v"))])),
    ]));
    assert_eq!(nested.duplicate().compare(&nested), Some(Rank::Equal));
}
