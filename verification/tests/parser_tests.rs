use minilang::check::{ty, Env};
use minilang::error::{Category, Fault};
use minilang::expr::Expr;
use minilang::parse::{block, expect, expression, infix_power, parse, prefix_power, primary};
use minilang::span::Span;
use minilang::token::{tokens, Kind};

fn num(text: &str) -> Expr {
    Expr::Number(text.to_string())
}

fn id(text: &str) -> Expr {
    Expr::Identifier(text.to_string())
}

fn bin(op: &str, lhs: Expr, rhs: Expr) -> Expr {
    Expr::Binary { op: op.to_string(), lhs: Box::new(lhs), rhs: Box::new(rhs) }
}

fn un(op: &str, expr: Expr) -> Expr {
    Expr::Unary { op: op.to_string(), expr: Box::new(expr) }
}

#[test]
fn binding_powers() {
    assert_eq!(infix_power("^"), Some((15, 14)));
    assert_eq!(infix_power("*"), Some((10, 11)));
    assert_eq!(infix_power("/"), Some((10, 11)));
    assert_eq!(infix_power("+"), Some((8, 9)));
    assert_eq!(infix_power("-"), Some((8, 9)));
    for op in ["==", "!=", "<", ">", ">=", "<="] {
        assert_eq!(infix_power(op), Some((6, 7)));
    }
    assert_eq!(infix_power("and"), Some((4, 5)));
    assert_eq!(infix_power("or"), Some((2, 3)));
    assert_eq!(infix_power("="), Some((1, 0)));
    assert_eq!(infix_power("%"), None);
    assert_eq!(infix_power("not"), None);
    assert_eq!(prefix_power("not"), Some(12));
    assert_eq!(prefix_power("-"), Some(12));
    assert_eq!(prefix_power("+"), None);
}

#[test]
fn source_is_a_block_of_its_expressions() {
    assert_eq!(parse(tokens("1 2")), Ok(Expr::Block(vec![num("1"), num("2")])));
    assert_eq!(parse(tokens("")), Ok(Expr::Block(vec![])));
}

#[test]
fn precedence_shapes_the_tree() {
    let mut lexer = tokens("1 + 2 * 3");
    assert_eq!(
        expression(&mut lexer, 0),
        Ok(bin("+", num("1"), bin("*", num("2"), num("3"))))
    );
    let mut lexer = tokens("1 * 2 + 3");
    assert_eq!(
        expression(&mut lexer, 0),
        Ok(bin("+", bin("*", num("1"), num("2")), num("3")))
    );
}

#[test]
fn associativity_shapes_the_tree() {
    let mut lexer = tokens("2 ^ 3 ^ 2");
    assert_eq!(
        expression(&mut lexer, 0),
        Ok(bin("^", num("2"), bin("^", num("3"), num("2"))))
    );
    let mut lexer = tokens("1 - 2 - 3");
    assert_eq!(
        expression(&mut lexer, 0),
        Ok(bin("-", bin("-", num("1"), num("2")), num("3")))
    );
    let mut lexer = tokens("a = b = 1");
    assert_eq!(expression(&mut lexer, 0), Ok(bin("=", id("a"), bin("=", id("b"), num("1")))));
}

#[test]
fn minimum_power_stops_the_climb() {
    let mut lexer = tokens("1 + 2 * 3");
    assert_eq!(expression(&mut lexer, 9), Ok(num("1")));
    assert_eq!(lexer.peek().map(|t| t.text), Some("+"));
    let mut lexer = tokens("1 * 2 + 3");
    assert_eq!(expression(&mut lexer, 9), Ok(bin("*", num("1"), num("2"))));
    assert_eq!(lexer.peek().map(|t| t.text), Some("+"));
}

#[test]
fn prefix_operator_binds_tighter_than_product() {
    let mut lexer = tokens("-a * b");
    assert_eq!(expression(&mut lexer, 0), Ok(bin("*", un("-", id("a")), id("b"))));
    let mut lexer = tokens("-a ^ b");
    assert_eq!(expression(&mut lexer, 0), Ok(un("-", bin("^", id("a"), id("b")))));
    let mut lexer = tokens("not a and b");
    assert_eq!(expression(&mut lexer, 0), Ok(bin("and", un("not", id("a")), id("b"))));
}

#[test]
fn primary_forms() {
    assert_eq!(primary(&mut tokens("12")), Ok(num("12")));
    assert_eq!(primary(&mut tokens("\"hi\"")), Ok(Expr::Text("hi".to_string())));
    assert_eq!(primary(&mut tokens("true")), Ok(Expr::Bool(true)));
    assert_eq!(primary(&mut tokens("false")), Ok(Expr::Bool(false)));
    assert_eq!(primary(&mut tokens("name")), Ok(id("name")));
    assert_eq!(primary(&mut tokens("(1 + 2)")), Ok(bin("+", num("1"), num("2"))));
    assert_eq!(
        primary(&mut tokens("do 1 x end")),
        Ok(Expr::Block(vec![num("1"), id("x")]))
    );
    assert_eq!(primary(&mut tokens("var x = 1 + 2")), Ok(bin("=", id("x"), bin("+", num("1"), num("2")))));
}

#[test]
fn block_stops_before_its_end_marker() {
    let mut lexer = tokens("1 2 end 3");
    assert_eq!(block(&mut lexer, Some("end")), Ok(Expr::Block(vec![num("1"), num("2")])));
    assert_eq!(lexer.peek().map(|t| (t.kind, t.text)), Some((Kind::Keyword, "end")));
    let mut lexer = tokens("1 \"end\" end");
    assert_eq!(
        block(&mut lexer, Some("end")),
        Ok(Expr::Block(vec![num("1"), Expr::Text("end".to_string())]))
    );
}

#[test]
fn expect_consumes_the_token() {
    let mut lexer = tokens(") x");
    let token = expect(&mut lexer, ")").unwrap();
    assert_eq!((token.kind, token.text, token.span), (Kind::Grouping, ")", Span { start: 0, len: 1 }));
    let error = expect(&mut lexer, ")").unwrap_err();
    assert_eq!(error.fault, Fault::Expected { wanted: ")".to_string(), found: "x".to_string() });
    assert_eq!(error.span, Some(Span { start: 2, len: 1 }));
    assert_eq!(error.render(), "expected \")\", got \"x\" at index 2");
    assert_eq!(expect(&mut lexer, ")").unwrap_err().fault, Fault::UnexpectedEnd);
}

#[test]
fn end_of_input_inside_an_expression() {
    let error = parse(tokens("1 +")).unwrap_err();
    assert_eq!(error.fault, Fault::UnexpectedEnd);
    assert_eq!(error.fault.category(), Category::Parse);
    assert_eq!(error.span, None);
    assert_eq!(error.render(), "unexpected eof");
    assert_eq!(parse(tokens("(1")).unwrap_err().fault, Fault::UnexpectedEnd);
    assert_eq!(parse(tokens("do 1")).unwrap_err().fault, Fault::UnexpectedEnd);
}

#[test]
fn unknown_operators() {
    let error = parse(tokens("1 % 2")).unwrap_err();
    assert_eq!(error.fault, Fault::NotInfix("%".to_string()));
    assert_eq!(error.span, Some(Span { start: 2, len: 1 }));
    assert_eq!(error.render(), "\"%\" is not an infix operator at index 2");
    let error = parse(tokens("* 2")).unwrap_err();
    assert_eq!(error.fault, Fault::NotUnary("*".to_string()));
    assert_eq!(error.span, Some(Span { start: 0, len: 1 }));
    assert_eq!(error.render(), "\"*\" is not a unary operator at index 0");
    assert_eq!(parse(tokens("1 not 2")).unwrap_err().fault, Fault::NotInfix("not".to_string()));
}

#[test]
fn mismatched_closing_token() {
    let error = parse(tokens("(1 2")).unwrap_err();
    assert_eq!(error.fault, Fault::Expected { wanted: ")".to_string(), found: "2".to_string() });
    let error = parse(tokens("((1))")).unwrap_err();
    assert_eq!(error.fault, Fault::Expected { wanted: ")".to_string(), found: "))".to_string() });
}

#[test]
fn keyword_that_begins_no_expression() {
    let error = parse(tokens("1 end")).unwrap_err();
    assert_eq!(error.fault, Fault::UnexpectedKeyword("end".to_string()));
    assert_eq!(error.span, Some(Span { start: 2, len: 3 }));
    assert_eq!(error.render(), "unexpected keyword \"end\" at index 2");
    assert_eq!(parse(tokens("if")).unwrap_err().fault, Fault::UnexpectedKeyword("if".to_string()));
}

#[test]
fn lexer_failure_is_the_parsers_error() {
    let error = parse(tokens("1 $")).unwrap_err();
    assert_eq!(error.fault, Fault::Unhandled('$'));
    assert_eq!(error.span, Some(Span { start: 2, len: 1 }));
    let error = parse(tokens("1 + $")).unwrap_err();
    assert_eq!(error.fault, Fault::Unhandled('$'));
    assert_eq!(parse(tokens("x = \"abc")).unwrap_err().fault, Fault::Unterminated);
}

#[test]
fn checker_tags() {
    let mut env = Env::new();
    assert_eq!(ty(&Expr::Bool(true), &mut env), Ok("bool".to_string()));
    assert_eq!(ty(&num("1"), &mut env), Ok("number".to_string()));
    assert_eq!(ty(&Expr::Text("a".to_string()), &mut env), Ok("text".to_string()));
    assert_eq!(ty(&Expr::Block(vec![]), &mut env), Ok("unit".to_string()));
    assert_eq!(ty(&Expr::Block(vec![num("1"), Expr::Bool(true)]), &mut env), Ok("bool".to_string()));
    assert_eq!(ty(&un("not", num("1")), &mut env), Ok("number".to_string()));
    assert_eq!(ty(&bin("<", num("1"), num("2")), &mut env), Ok("number".to_string()));
    assert_eq!(ty(&id("x"), &mut env).unwrap_err().fault, Fault::Unbound);
}

#[test]
fn checker_binds_on_assignment() {
    let mut env = Env::new();
    assert_eq!(ty(&bin("=", id("x"), Expr::Bool(true)), &mut env), Ok("bool".to_string()));
    assert_eq!(env.get("x"), Some(&"bool".to_string()));
    assert_eq!(ty(&id("x"), &mut env), Ok("bool".to_string()));
    assert_eq!(ty(&bin("=", id("x"), num("1")), &mut env), Ok("number".to_string()));
    assert_eq!(env.get("x"), Some(&"number".to_string()));
}

#[test]
fn checker_block_does_not_leak() {
    let mut env = Env::new();
    let inner = Expr::Block(vec![bin("=", id("x"), num("1")), id("x")]);
    assert_eq!(ty(&inner, &mut env), Ok("number".to_string()));
    assert_eq!(env.get("x"), None);
}

#[test]
fn checker_mismatch() {
    let mut env = Env::new();
    let error = ty(&bin("+", num("1"), Expr::Bool(true)), &mut env).unwrap_err();
    assert_eq!(
        error.fault,
        Fault::Mismatch { expected: "number".to_string(), found: "bool".to_string() }
    );
    let error = ty(&bin("=", num("1"), Expr::Bool(true)), &mut env).unwrap_err();
    assert_eq!(
        error.fault,
        Fault::Mismatch { expected: "number".to_string(), found: "bool".to_string() }
    );
}

#[test]
fn checker_uses_the_tags_it_is_given() {
    let mut env = Env::new();
    env.insert("t".to_string(), "table".to_string());
    assert_eq!(ty(&id("t"), &mut env), Ok("table".to_string()));
    assert_eq!(ty(&bin("==", id("t"), id("t")), &mut env), Ok("table".to_string()));
}

#[test]
fn reserved_forms_are_no_kernel_forms() {
    assert!(num("1").is_kernel());
    assert!(Expr::Block(vec![num("1"), un("-", id("x"))]).is_kernel());
    assert!(!Expr::Function {}.is_kernel());
    assert!(!Expr::Block(vec![num("1"), Expr::Loop { body: Box::new(num("1")) }]).is_kernel());
    assert!(!bin("+", num("1"), Expr::Variable(Box::new(id("x")), Box::new(num("1")))).is_kernel());
}
