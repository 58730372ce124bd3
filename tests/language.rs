use olang::builtin::{len, to_string};
use olang::environment::Environment;
use olang::interpreter::{exponent, plus, EvalError, Interpreter};
use olang::lexer::{Lexer, LexerError, Location, Region, TokenValue};
use olang::parser::{
    AssignmentOperator, Expression, ExpressionValue, Operator, Parser, ParserError, Program,
    UpdateOperator,
};
use olang::value::{ControlFlowValue, Exception};
use olang::{eval, Value};

fn exception_of(source: &str) -> Exception {
    match eval(source) {
        Err(EvalError::UnhandledException(e)) => e,
        other => panic!("expected an exception, got {:?}", other),
    }
}

fn node(value: ExpressionValue) -> Expression {
    let here = Location { row: 1, col: 1 };
    Expression { region: Region { start: here, end: here }, value }
}

fn run(ast: Vec<Expression>) -> Result<Value, EvalError> {
    Interpreter::new().run(&Program { ast })
}

#[test]
fn precedence_and_grouping() {
    assert_eq!(eval("3+5*2").unwrap(), Value::Int(13));
    assert_eq!(eval("(3+5)*2").unwrap(), Value::Int(16));
    assert_eq!(eval("6/2*(1+2)").unwrap(), Value::Int(9));
    assert_eq!(eval("6/2*{1+2}").unwrap(), Value::Int(9));
    assert_eq!(eval("2**3**2").unwrap(), Value::Int(64));
    assert_eq!(eval("1 < 2 && 2 <= 2 || false").unwrap(), Value::Bool(true));
}

#[test]
fn exponent_edges() {
    assert_eq!(eval("2**3").unwrap(), Value::Int(8));
    assert_eq!(eval("0**0").unwrap(), Value::Int(1));
    assert_eq!(eval("2**62").unwrap(), Value::Int(4611686018427387904));
    assert_eq!(exception_of("2**63"), Exception::ExponentiationOverflowed);
    assert_eq!(exception_of("2**(0-2)"), Exception::ExponentiationOverflowed);
    assert_eq!(eval("1**9223372036854775807").unwrap(), Value::Int(1));
    assert_eq!(
        exponent(Value::Int(3), Value::Int(4)).unwrap(),
        Value::Int(81)
    );
}

#[test]
fn string_concatenation() {
    assert_eq!(eval("\"a\" + \"b\"").unwrap(), Value::String("ab".to_string()));
    assert_eq!(exception_of("\"a\" + 1"), Exception::ValueIsWrongType);
}

#[test]
fn list_append_copies() {
    let list = Value::List(vec![Value::Int(1), Value::Int(2)]);
    let longer = plus(list.copy(), Value::Int(3)).unwrap();
    assert_eq!(
        longer,
        Value::List(vec![Value::Int(1), Value::Int(2), Value::Int(3)])
    );
    assert_eq!(list, Value::List(vec![Value::Int(1), Value::Int(2)]));
    assert_eq!(len(vec![longer]).unwrap(), Value::Int(3));
    assert_eq!(len(vec![list]).unwrap(), Value::Int(2));

    // var l = [1 2]  l + 3  l
    let program = vec![
        node(ExpressionValue::VariableDeclaration {
            identifier: "l".to_string(),
            expression: Box::new(node(ExpressionValue::List(vec![
                node(ExpressionValue::Int(1)),
                node(ExpressionValue::Int(2)),
            ]))),
        }),
        node(ExpressionValue::Binary {
            left: Box::new(node(ExpressionValue::Identifier("l".to_string()))),
            operator: Operator::Plus,
            right: Box::new(node(ExpressionValue::Int(3))),
        }),
        node(ExpressionValue::Identifier("l".to_string())),
    ];
    assert_eq!(
        run(program).unwrap(),
        Value::List(vec![Value::Int(1), Value::Int(2)])
    );
}

#[test]
fn indexing_update_and_compound_assignment() {
    let list = || {
        node(ExpressionValue::List(vec![
            node(ExpressionValue::Int(10)),
            node(ExpressionValue::Int(20)),
        ]))
    };
    let index = |i: i64| {
        vec![node(ExpressionValue::Index {
            expression: Box::new(list()),
            index: Box::new(node(ExpressionValue::Int(i))),
        })]
    };
    assert_eq!(run(index(1)).unwrap(), Value::Int(20));
    match run(index(2)) {
        Err(EvalError::UnhandledException(e)) => assert_eq!(e, Exception::IndexOutOfRange),
        other => panic!("{:?}", other),
    }
    match run(index(-1)) {
        Err(EvalError::UnhandledException(e)) => assert_eq!(e, Exception::IndexOutOfRange),
        other => panic!("{:?}", other),
    }

    // var x = 5  x++  x *= 3  x %= 4  x
    let program = vec![
        node(ExpressionValue::VariableDeclaration {
            identifier: "x".to_string(),
            expression: Box::new(node(ExpressionValue::Int(5))),
        }),
        node(ExpressionValue::Update {
            identifier: "x".to_string(),
            operator: UpdateOperator::Increment,
        }),
        node(ExpressionValue::Assign {
            identifier: "x".to_string(),
            operator: AssignmentOperator::Multiply,
            expression: Box::new(node(ExpressionValue::Int(3))),
        }),
        node(ExpressionValue::Assign {
            identifier: "x".to_string(),
            operator: AssignmentOperator::Modulo,
            expression: Box::new(node(ExpressionValue::Int(4))),
        }),
        node(ExpressionValue::Identifier("x".to_string())),
    ];
    assert_eq!(run(program).unwrap(), Value::Int(2));

    let undeclared = vec![node(ExpressionValue::Update {
        identifier: "y".to_string(),
        operator: UpdateOperator::Decrement,
    })];
    match run(undeclared) {
        Err(EvalError::UnhandledException(e)) => assert_eq!(e, Exception::UndeclaredIdentifier),
        other => panic!("{:?}", other),
    }
}

#[test]
fn scoping() {
    assert_eq!(exception_of("{ var x = 1 } x"), Exception::UndeclaredIdentifier);
    assert_eq!(exception_of("if true { var y = 2 } y"), Exception::UndeclaredIdentifier);
    assert_eq!(exception_of("loop { var w = 1 break } w"), Exception::UndeclaredIdentifier);
    assert_eq!(
        exception_of("for var i = 0 i < 3 i = i + 1 { } i"),
        Exception::UndeclaredIdentifier
    );
    assert_eq!(exception_of("q = 3"), Exception::UndeclaredIdentifier);
    assert_eq!(eval("var a = 1 { a = 2 } a").unwrap(), Value::Int(2));
    assert_eq!(eval("var a = 1 { var a = 5 } a").unwrap(), Value::Int(1));
}

#[test]
fn loop_control() {
    let skip = "var n = 0 for var i = 0 i < 5 i = i + 1 { if i == 2 { continue } n = n + 1 } n";
    assert_eq!(eval(skip).unwrap(), Value::Int(4));
    let stop = "var n = 0 while true { n = n + 1 if n == 3 { break } } n";
    assert_eq!(eval(stop).unwrap(), Value::Int(3));
    assert_eq!(eval("var i = 0 while i < 3 { i = i + 1 i * 10 }").unwrap(), Value::Int(30));
    assert!(matches!(eval("continue"), Err(EvalError::ContinueOutsideLoop)));
    assert!(matches!(eval("break"), Err(EvalError::BreakOutsideLoop)));
    assert!(matches!(eval("if true { break }"), Err(EvalError::BreakOutsideLoop)));
}

#[test]
fn function_arity() {
    let f = "var f = fun (a b) { a + b } ";
    assert_eq!(eval(&format!("{}f(1 2)", f)).unwrap(), Value::Int(3));
    assert_eq!(exception_of(&format!("{}f(1)", f)), Exception::WrongNumberOfArguments);
    assert_eq!(
        exception_of(&format!("{}f(\"x\" true null)", f)),
        Exception::WrongNumberOfArguments
    );
    assert_eq!(exception_of("toString(1 2)"), Exception::WrongNumberOfArguments);
    assert_eq!(exception_of("var v = 1 v()"), Exception::CalledValueIsNotFunction);
    assert_eq!(exception_of("nothing()"), Exception::UndeclaredIdentifier);
}

#[test]
fn functions_do_not_capture() {
    let source = "var k = 1 var get = fun () { k } { var k = 2 get() }";
    assert_eq!(eval(source).unwrap(), Value::Int(2));
}

#[test]
fn fresh_interpreters_agree() {
    let source = "var x = 2 var y = x * 21 \"v\" + toString(y)";
    let first = Interpreter::new().eval(source).unwrap();
    let second = Interpreter::new().eval(source).unwrap();
    assert_eq!(first, second);
    assert_eq!(first, Value::String("v42".to_string()));
}

#[test]
fn display_round_trip() {
    assert_eq!(eval("toString(1234)").unwrap(), Value::String("1234".to_string()));
    let tokens = Lexer::new("1234").tokenize().unwrap();
    assert_eq!(tokens.len(), 2);
    assert!(matches!(tokens[0].value, TokenValue::Int(1234)));
    assert!(matches!(tokens[1].value, TokenValue::EndOfFile));

    assert_eq!(eval("toString(true)").unwrap(), Value::String("true".to_string()));
    let tokens = Lexer::new("false").tokenize().unwrap();
    assert!(matches!(tokens[0].value, TokenValue::KeywordFalse));
    assert_eq!(eval("toString(null)").unwrap(), Value::String("null".to_string()));
    let tokens = Lexer::new("null").tokenize().unwrap();
    assert!(matches!(tokens[0].value, TokenValue::KeywordNull));

    assert_eq!(eval("toString(\"abc\")").unwrap(), Value::String("abc".to_string()));
    let tokens = Lexer::new("\"abc\"").tokenize().unwrap();
    match &tokens[0].value {
        TokenValue::String(s) => assert_eq!(s, "abc"),
        other => panic!("{:?}", other),
    }
    assert_eq!(eval("toString(0-42)").unwrap(), Value::String("-42".to_string()));
    let list = Value::List(vec![Value::Int(1), Value::String("a".to_string()), Value::Bool(false)]);
    assert_eq!(
        to_string(vec![list]).unwrap(),
        Value::String("[1 a false]".to_string())
    );
    assert_eq!(to_string(vec![Value::List(vec![])]).unwrap(), Value::String("[]".to_string()));
}

#[test]
fn lexer_errors_and_locations() {
    match eval("1 +\n  @") {
        Err(EvalError::Lexer(LexerError::UnexpectedCharacter { location, char })) => {
            assert_eq!(char, '@');
            assert_eq!(location, Location { row: 2, col: 3 });
        }
        other => panic!("{:?}", other),
    }
    assert!(matches!(eval("&"), Err(EvalError::Lexer(LexerError::UnexpectedCharacter { .. }))));
    assert!(matches!(
        eval("99999999999999999999"),
        Err(EvalError::Lexer(LexerError::IntegerTooLarge { .. }))
    ));
    assert_eq!(eval("9223372036854775807").unwrap(), Value::Int(9223372036854775807));
    let tokens = Lexer::new("ab\ncd").tokenize().unwrap();
    assert_eq!(tokens[1].region.start, Location { row: 2, col: 1 });
    assert_eq!(tokens[1].region.end, Location { row: 2, col: 3 });
    assert_eq!(tokens.len(), 3);
    assert_eq!(Lexer::new("").tokenize().unwrap().len(), 1);
}

#[test]
fn whitespace_and_identifiers_beyond_ascii() {
    assert_eq!(eval("1\t+\r\n2").unwrap(), Value::Int(3));
    assert_eq!(eval("1\u{00A0}+\u{2003}2").unwrap(), Value::Int(3));
    assert_eq!(eval("var é = 5 é").unwrap(), Value::Int(5));
    assert_eq!(eval("var x1 = 7 x1").unwrap(), Value::Int(7));
}

#[test]
fn parser_errors() {
    match eval("(1 + 2") {
        Err(EvalError::Parser(ParserError::ExpectedToken { expected, found, .. })) => {
            assert_eq!(expected, olang::lexer::TokenKind::CloseParenthesis);
            assert!(matches!(found.value, TokenValue::EndOfFile));
        }
        other => panic!("{:?}", other),
    }
    assert!(matches!(
        eval(")"),
        Err(EvalError::Parser(ParserError::UnexpectedToken { while_parsing: None, .. }))
    ));
    assert!(matches!(
        eval("var = 1"),
        Err(EvalError::Parser(ParserError::ExpectedToken { .. }))
    ));
    assert!(matches!(
        eval("fun (1) { }"),
        Err(EvalError::Parser(ParserError::UnexpectedToken { while_parsing: Some(_), .. }))
    ));
    assert!(matches!(eval("if true 1"), Err(EvalError::Parser(_))));
    let mut parser = Parser::new("1 2 3").unwrap();
    assert_eq!(parser.parse().unwrap().ast.len(), 3);
}

#[test]
fn arithmetic_errors() {
    assert_eq!(exception_of("1 / 0"), Exception::DivisionByZero);
    assert_eq!(exception_of("1 % 0"), Exception::DivisionByZero);
    assert_eq!(exception_of("9223372036854775807 + 1"), Exception::IntegerOverflow);
    assert_eq!(eval("7 / (0-2)").unwrap(), Value::Int(-3));
    assert_eq!(eval("(0-7) % 2").unwrap(), Value::Int(-1));
    assert_eq!(exception_of("1 < true"), Exception::ValueIsWrongType);
    assert_eq!(exception_of("1 && true"), Exception::ValueIsWrongType);
    assert_eq!(exception_of("if 1 { 2 }"), Exception::ValueIsWrongType);
    assert_eq!(eval("1 == 1").unwrap(), Value::Bool(true));
    assert_eq!(eval("\"a\" != \"a\"").unwrap(), Value::Bool(false));
    assert_eq!(eval("var f = fun () { 1 } f == f").unwrap(), Value::Bool(false));
}

#[test]
fn builtins_read_and_print() {
    let mut interpreter = Interpreter::with_input(vec!["hello".to_string()]);
    let result = interpreter.eval("printLn(readLn() \" \" 1 true) readLn()").unwrap();
    assert_eq!(result, Value::String(String::new()));
    assert_eq!(interpreter.output(), &vec!["hello 1true".to_string()]);
    assert_eq!(exception_of("readLn(1)"), Exception::WrongNumberOfArguments);
    assert_eq!(exception_of("len(1)"), Exception::ValueIsWrongType);
    assert_eq!(exception_of("len()"), Exception::WrongNumberOfArguments);
    assert!(matches!(
        len(vec![Value::Int(1)]),
        Err(ControlFlowValue::Exception(Exception::ValueIsWrongType))
    ));
}

#[test]
fn environment_scopes() {
    let mut env = Environment::new();
    env.declare("a".to_string(), Value::Int(1));
    env.push();
    env.declare("a".to_string(), Value::Int(2));
    assert_eq!(env.get(&"a".to_string()), Some(Value::Int(2)));
    env.assign(&"a".to_string(), Value::Int(3)).unwrap();
    env.pop();
    assert_eq!(env.get(&"a".to_string()), Some(Value::Int(1)));
    assert!(env.assign(&"b".to_string(), Value::Null).is_err());
    assert_eq!(env.get(&"b".to_string()), None);
    let builtins = Environment::default();
    assert!(builtins.get(&"len".to_string()).is_some());
    assert!(builtins.get(&"printLn".to_string()).is_some());
}
