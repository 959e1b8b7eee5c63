use minicc::lexer::tokenize;
use minicc::parser::parse_exp;
use minicc::parser::parse_program;
use minicc::parser::Exp;
use minicc::parser::Op;
use minicc::parser::ParseErrorKind;
use minicc::parser::UOp;

fn parse_test(text: &str) {
    let tokens = tokenize(text).ok().unwrap();
    let stmts = parse_program(tokens.as_slice()).ok().unwrap();
    println!("{:?}", stmts);
}

#[test]
fn parser_parse_exp_test() {
    parse_test("1+2*3+4+5*6;");
    parse_test("1 + 2 * 3 * 2 + 4 * -5;");
    parse_test("abc + def;");
    parse_test("a = b = c = 1 + 2 + 3 ;");
    parse_test(
        "
    a = 1;
    b = a + 2;",
    );
    parse_test(
        "
    return a;
    b = a + 2;",
    );
    parse_test(
        "
    if(a)  a + 1; else a - 1;",
    );
    parse_test(
        "
    if(a) a + 1;",
    );
    parse_test(
        "
    while(a) a = a + 1;",
    );
    parse_test(
        "
    for(;;) a;",
    );
    parse_test(
        "
    for(a;;) a;",
    );
    parse_test(
        "
    for(;b;) a;",
    );
    parse_test(
        "
    for(;;c) a;",
    );
    parse_test(
        "
    for(a = 0; a < 3; a = a + 1) a;",
    );
    parse_test(
        "
        i=0; j=0; for (i=0; i<=10; i=i+1) j=2; return j;",
    );
    parse_test("if (true) {x = 2; false;} else {j = 0; true;}");

    parse_test("int sum (int x, int y) {return x + y; }");
    parse_test("int sum (int x, int y) {for(;;) {i = i + 1;} }");
    parse_test("sum(1+2, 2+3);");
    parse_test("sum(1+2, 2+3) + sum(0, 1);");

    parse_test("1 + **a; &*a * 2;");
}

fn var(name: &str) -> Exp {
    Exp::Var(name.to_string())
}

fn infix(left: Exp, op: Op, right: Exp) -> Exp {
    Exp::InfixExp {
        left: Box::new(left),
        op,
        right: Box::new(right),
    }
}

// Assignment chains nest to the right: `a = b = c = 1+2+3` parses as
// `a = (b = (c = (1+2)+3))`, while the additions nest to the left.
#[test]
fn assignment_is_right_associative() {
    let tokens = tokenize("a = b = c = 1 + 2 + 3").ok().unwrap();
    let (exp, rest) = parse_exp(tokens.as_slice()).ok().unwrap();
    assert!(rest.is_empty());
    let sum = infix(
        infix(Exp::Int(1), Op::Plus, Exp::Int(2)),
        Op::Plus,
        Exp::Int(3),
    );
    let expected = infix(
        var("a"),
        Op::Assign,
        infix(var("b"), Op::Assign, infix(var("c"), Op::Assign, sum)),
    );
    assert_eq!(exp, expected);
}

// Subtraction chains nest to the left: 5-3-1-1 means ((5-3)-1)-1.
#[test]
fn additive_is_left_associative() {
    let tokens = tokenize("5 - 3 - 1 - 1").ok().unwrap();
    let (exp, _) = parse_exp(tokens.as_slice()).ok().unwrap();
    let expected = infix(
        infix(
            infix(Exp::Int(5), Op::Minus, Exp::Int(3)),
            Op::Minus,
            Exp::Int(1),
        ),
        Op::Minus,
        Exp::Int(1),
    );
    assert_eq!(exp, expected);
    assert_eq!(
        minicc::eval::get_int_result_from_string("5 - 3 - 1 - 1"),
        Some(0)
    );
}

// Unary operators chain without error.
#[test]
fn unary_operators_chain() {
    let tokens = tokenize("&*a").ok().unwrap();
    let (exp, _) = parse_exp(tokens.as_slice()).ok().unwrap();
    assert_eq!(
        exp,
        Exp::UnaryExp {
            op: UOp::Address,
            exp: Box::new(Exp::UnaryExp {
                op: UOp::Deref,
                exp: Box::new(var("a")),
            }),
        }
    );

    let tokens = tokenize("**a").ok().unwrap();
    let (exp, _) = parse_exp(tokens.as_slice()).ok().unwrap();
    assert_eq!(
        exp,
        Exp::UnaryExp {
            op: UOp::Deref,
            exp: Box::new(Exp::UnaryExp {
                op: UOp::Deref,
                exp: Box::new(var("a")),
            }),
        }
    );

    assert_eq!(minicc::eval::get_int_result_from_string("- -10"), Some(10));
    assert_eq!(minicc::eval::get_int_result_from_string("- - +10"), Some(10));
}

// A dangling operator is a terminal parse failure.
#[test]
fn incomplete_expression_is_a_parse_error() {
    let tokens = tokenize("1 + ").ok().unwrap();
    let result = parse_exp(tokens.as_slice());
    assert!(result.is_err());
    assert_eq!(result.err().unwrap().kind, ParseErrorKind::UnexpectedToken);
}

#[test]
fn unbalanced_parenthesis_is_a_parse_error() {
    let tokens = tokenize("(1 + 2").ok().unwrap();
    let result = parse_exp(tokens.as_slice());
    assert!(result.is_err());
    assert_eq!(result.err().unwrap().kind, ParseErrorKind::UnclosedParen);
}

#[test]
fn missing_semicolon_is_a_parse_error() {
    let tokens = tokenize("a = 1").ok().unwrap();
    let result = parse_program(tokens.as_slice());
    assert!(result.is_err());
    assert_eq!(
        result.err().unwrap().kind,
        ParseErrorKind::MissingSemicolon
    );
}

#[test]
fn unclosed_condition_is_a_parse_error() {
    let tokens = tokenize("if(1 { x; }").ok().unwrap();
    let result = parse_program(tokens.as_slice());
    assert!(result.is_err());
    assert_eq!(result.err().unwrap().kind, ParseErrorKind::UnclosedCond);
}

#[test]
fn bad_for_clause_is_a_parse_error() {
    let tokens = tokenize("for(1 1;;) x;").ok().unwrap();
    let result = parse_program(tokens.as_slice());
    assert!(result.is_err());
    assert_eq!(result.err().unwrap().kind, ParseErrorKind::BadFor);
}

#[test]
fn parameter_without_type_is_a_parse_error() {
    let tokens = tokenize("int f (x) { return x; }").ok().unwrap();
    let result = parse_program(tokens.as_slice());
    assert!(result.is_err());
    assert_eq!(result.err().unwrap().kind, ParseErrorKind::BadType);
}

// Parentheses admit a whole expression of any level, assignment
// included.
#[test]
fn parentheses_admit_any_expression() {
    let tokens = tokenize("(1 == 2)").ok().unwrap();
    let (exp, rest) = parse_exp(tokens.as_slice()).ok().unwrap();
    assert!(rest.is_empty());
    assert_eq!(exp, infix(Exp::Int(1), Op::Eq, Exp::Int(2)));
    assert_eq!(
        minicc::eval::get_bool_result_from_string("(1 == 2)"),
        Some(false)
    );
    assert_eq!(
        minicc::eval::get_bool_result_from_string("(1 < 2)"),
        Some(true)
    );

    let tokens = tokenize("b = (a = 1)").ok().unwrap();
    let (exp, rest) = parse_exp(tokens.as_slice()).ok().unwrap();
    assert!(rest.is_empty());
    assert_eq!(
        exp,
        infix(var("b"), Op::Assign, infix(var("a"), Op::Assign, Exp::Int(1)))
    );

    parse_test("int f ( ) { int a; int b; b = (a = 1); return b; }");
}

// A comma that does not stand between two arguments is a parse
// failure, as is a missing separator.
#[test]
fn stray_commas_in_argument_lists_fail() {
    let tokens = tokenize("f(,1);").ok().unwrap();
    assert!(parse_program(tokens.as_slice()).is_err());

    let tokens = tokenize("f(1,);").ok().unwrap();
    assert!(parse_program(tokens.as_slice()).is_err());

    let tokens = tokenize("f(1 2);").ok().unwrap();
    let result = parse_program(tokens.as_slice());
    assert!(result.is_err());
    assert_eq!(result.err().unwrap().kind, ParseErrorKind::UnclosedParen);

    let tokens = tokenize("f(1, 2);").ok().unwrap();
    assert!(parse_program(tokens.as_slice()).is_ok());

    let tokens = tokenize("int f (int x int y) { return x; }").ok().unwrap();
    assert!(parse_program(tokens.as_slice()).is_err());
}

// A block whose closing brace never comes is an unbalanced delimiter.
#[test]
fn unclosed_block_is_a_parse_error() {
    let tokens = tokenize("{ x; ").ok().unwrap();
    let result = parse_program(tokens.as_slice());
    assert!(result.is_err());
    assert_eq!(result.err().unwrap().kind, ParseErrorKind::UnclosedBrace);

    let tokens = tokenize("int f ( ) { return 1; ").ok().unwrap();
    let result = parse_program(tokens.as_slice());
    assert!(result.is_err());
    assert_eq!(result.err().unwrap().kind, ParseErrorKind::UnclosedBrace);

    let tokens = tokenize("int f ( ) { return 1; }").ok().unwrap();
    assert!(parse_program(tokens.as_slice()).is_ok());
}
