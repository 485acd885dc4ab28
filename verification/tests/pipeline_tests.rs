use minilang::error::{Category, Error, Fault};
use minilang::eval::{eval, Answer, Arith, Ask, Relation, Table};
use minilang::expr::Expr;
use minilang::parse::parse;
use minilang::pipeline::run;
use minilang::token::tokens;
use minilang::value::{Value, ValueKind};

fn host(ask: Ask) -> Answer {
    match ask {
        Ask::Literal(text) => match text.parse::<f64>() {
            Ok(x) => Answer::Number(x.to_bits()),
            Err(_) => Answer::Undefined,
        },
        Ask::Negate(a) => Answer::Number((-f64::from_bits(a)).to_bits()),
        Ask::Combine(op, a, b) => {
            let (x, y) = (f64::from_bits(a), f64::from_bits(b));
            let z = match op {
                Arith::Add => x + y,
                Arith::Sub => x - y,
                Arith::Mul => x * y,
                Arith::Div => x / y,
                Arith::Pow => x.powf(y),
            };
            Answer::Number(z.to_bits())
        }
        Ask::Compare(relation, a, b) => {
            let (x, y) = (f64::from_bits(a), f64::from_bits(b));
            Answer::Truth(match relation {
                Relation::Equal => x == y,
                Relation::Unequal => x != y,
                Relation::Greater => x > y,
                Relation::Less => x < y,
                Relation::AtLeast => x >= y,
                Relation::AtMost => x <= y,
            })
        }
    }
}

fn evaluate(source: &str) -> Result<Value, Error> {
    run(source, &mut Table::new(), &host)
}

fn number(x: f64) -> Value {
    Value::Number(x.to_bits())
}

#[test]
fn numeric_literal_evaluates_to_itself() {
    assert_eq!(evaluate("42"), Ok(number(42.0)));
    assert_eq!(evaluate("3.25"), Ok(number(3.25)));
    assert_eq!(evaluate("0"), Ok(number(0.0)));
    assert_eq!(evaluate("7."), Ok(number(7.0)));
}

#[test]
fn literal_the_host_refuses_is_an_error() {
    let error = evaluate("1_000").unwrap_err();
    assert_eq!(error.fault, Fault::Literal("1_000".to_string()));
    assert_eq!(error.render(), "invalid number \"1_000\"");
}

#[test]
fn multiplication_binds_tighter_than_addition() {
    assert_eq!(evaluate("1 + 2 * 3"), Ok(number(7.0)));
    assert_eq!(evaluate("1 * 2 + 3"), Ok(number(5.0)));
}

#[test]
fn power_groups_to_the_right() {
    assert_eq!(evaluate("2 ^ 3 ^ 2"), Ok(number(512.0)));
    assert_eq!(evaluate("(2 ^ 3) ^ 2"), Ok(number(64.0)));
    assert_eq!(evaluate("2 * 3 ^ 2"), Ok(number(18.0)));
    assert_eq!(evaluate("2 ^ 3 * 2"), Ok(number(16.0)));
}

#[test]
fn subtraction_and_division_group_to_the_left() {
    assert_eq!(evaluate("10 - 4 - 3"), Ok(number(3.0)));
    assert_eq!(evaluate("16 / 4 / 2"), Ok(number(2.0)));
}

#[test]
fn grouping_overrides_precedence() {
    assert_eq!(evaluate("(1 + 2) * 3"), Ok(number(9.0)));
}

#[test]
fn division_by_zero_is_no_error() {
    assert_eq!(evaluate("1 / 0"), Ok(number(f64::INFINITY)));
}

#[test]
fn assignment_returns_the_value_and_binds() {
    assert_eq!(evaluate("x = 5"), Ok(number(5.0)));
    assert_eq!(evaluate("x = 5 x"), Ok(number(5.0)));
    assert_eq!(evaluate("x = 5 x * 2"), Ok(number(10.0)));
}

#[test]
fn declaration_is_an_assignment() {
    assert_eq!(evaluate("var x = 5 x + 1"), Ok(number(6.0)));
    assert_eq!(parse(tokens("var x = 5")).ok(), parse(tokens("x = 5")).ok());
}

#[test]
fn assignment_in_the_given_scope_is_seen_afterwards() {
    let mut table = Table::new();
    let assign = Expr::Binary {
        op: "=".to_string(),
        lhs: Box::new(Expr::Identifier("x".to_string())),
        rhs: Box::new(Expr::Number("5".to_string())),
    };
    assert_eq!(eval(&assign, &mut table, &host), Ok(number(5.0)));
    assert_eq!(table.get("x"), Some(&number(5.0)));
    assert_eq!(eval(&Expr::Identifier("x".to_string()), &mut table, &host), Ok(number(5.0)));
}

#[test]
fn binding_inside_a_block_does_not_leak() {
    let mut table = Table::new();
    let block = Expr::Block(vec![Expr::Binary {
        op: "=".to_string(),
        lhs: Box::new(Expr::Identifier("x".to_string())),
        rhs: Box::new(Expr::Number("1".to_string())),
    }]);
    assert_eq!(eval(&block, &mut table, &host), Ok(number(1.0)));
    assert_eq!(table.get("x"), None);
    let error = eval(&Expr::Identifier("x".to_string()), &mut table, &host).unwrap_err();
    assert_eq!(error.fault, Fault::Unbound);
}

#[test]
fn block_from_source_does_not_leak() {
    let mut table = Table::new();
    assert_eq!(run("do x = 1 end", &mut table, &host), Ok(number(1.0)));
    assert_eq!(table.get("x"), None);
    let error = run("do x = 1 end x", &mut table, &host).unwrap_err();
    assert_eq!(error.fault, Fault::Unbound);
    assert_eq!(error.render(), "unbound identifier");
}

#[test]
fn block_sees_the_enclosing_scope() {
    assert_eq!(evaluate("x = 2 do x * 3 end"), Ok(number(6.0)));
    assert_eq!(evaluate("x = 2 do x = 3 end x"), Ok(number(2.0)));
}

#[test]
fn mismatch_is_refused_before_evaluation() {
    let error = parse(tokens("1 + \"a\"")).unwrap_err();
    assert_eq!(
        error.fault,
        Fault::Mismatch { expected: "number".to_string(), found: "text".to_string() }
    );
    assert_eq!(error.fault.category(), Category::Semantic);
    assert_eq!(error.render(), "expected number, found text");
    let mut table = Table::new();
    assert_eq!(run("x = 1 x + \"a\"", &mut table, &host), Err(error));
}

#[test]
fn unary_operators() {
    assert_eq!(evaluate("-5"), Ok(number(-5.0)));
    assert_eq!(evaluate("not true"), Ok(Value::Bool(false)));
    assert_eq!(evaluate("not false"), Ok(Value::Bool(true)));
    assert_eq!(evaluate("-(1 + 2)"), Ok(number(-3.0)));
    assert_eq!(evaluate("- 2 ^ 2"), Ok(number(-4.0)));
    assert_eq!(evaluate("-2 * 3"), Ok(number(-6.0)));
}

#[test]
fn unary_operator_on_the_wrong_sort() {
    let error = evaluate("not 5").unwrap_err();
    assert_eq!(error.fault, Fault::Unary { op: "not".to_string(), operand: ValueKind::Number });
    assert_eq!(error.render(), "cannot apply unary not to number");
    let error = evaluate("-true").unwrap_err();
    assert_eq!(error.fault, Fault::Unary { op: "-".to_string(), operand: ValueKind::Bool });
}

#[test]
fn logical_operators_evaluate_both_sides() {
    assert_eq!(evaluate("false and (x = true) x"), Ok(Value::Bool(true)));
    assert_eq!(evaluate("true or (x = false) x"), Ok(Value::Bool(false)));
    let mut table = Table::new();
    let both = Expr::Binary {
        op: "and".to_string(),
        lhs: Box::new(Expr::Bool(false)),
        rhs: Box::new(Expr::Binary {
            op: "=".to_string(),
            lhs: Box::new(Expr::Identifier("seen".to_string())),
            rhs: Box::new(Expr::Bool(true)),
        }),
    };
    assert_eq!(eval(&both, &mut table, &host), Ok(Value::Bool(false)));
    assert_eq!(table.get("seen"), Some(&Value::Bool(true)));
}

#[test]
fn left_side_is_evaluated_first() {
    assert_eq!(evaluate("(x = 1) + (x = x + 1) x"), Ok(number(2.0)));
}

#[test]
fn empty_block_is_unit() {
    assert_eq!(evaluate("do end"), Ok(Value::Unit));
    assert_eq!(evaluate(""), Ok(Value::Unit));
}

#[test]
fn comments_and_blanks_do_not_matter() {
    assert_eq!(evaluate("1 # comment\n+ 2"), Ok(number(3.0)));
    assert_eq!(evaluate("  1\t+\n\n2  # done"), Ok(number(3.0)));
}

#[test]
fn comparisons_of_numbers() {
    assert_eq!(evaluate("1 < 2"), Ok(Value::Bool(true)));
    assert_eq!(evaluate("1 > 2"), Ok(Value::Bool(false)));
    assert_eq!(evaluate("2 >= 2"), Ok(Value::Bool(true)));
    assert_eq!(evaluate("3 <= 2"), Ok(Value::Bool(false)));
    assert_eq!(evaluate("2 == 2"), Ok(Value::Bool(true)));
    assert_eq!(evaluate("2 != 2"), Ok(Value::Bool(false)));
    assert_eq!(evaluate("1 + 1 == 2"), Ok(Value::Bool(true)));
}

#[test]
fn operators_on_truth_values() {
    assert_eq!(evaluate("true == false"), Ok(Value::Bool(false)));
    assert_eq!(evaluate("true != false"), Ok(Value::Bool(true)));
    assert_eq!(evaluate("true and false"), Ok(Value::Bool(false)));
    assert_eq!(evaluate("true or false"), Ok(Value::Bool(true)));
    assert_eq!(evaluate("true or false and false"), Ok(Value::Bool(true)));
}

#[test]
fn operator_that_the_checker_lets_through_fails_at_run_time() {
    let error = evaluate("1 and 2").unwrap_err();
    assert_eq!(
        error.fault,
        Fault::Binary { op: "and".to_string(), left: ValueKind::Number, right: ValueKind::Number }
    );
    assert_eq!(error.render(), "cannot apply binary and to number and number");
    let error = evaluate("\"a\" == \"a\"").unwrap_err();
    assert_eq!(
        error.fault,
        Fault::Binary { op: "==".to_string(), left: ValueKind::Text, right: ValueKind::Text }
    );
}

#[test]
fn text_literal_is_a_value() {
    assert_eq!(evaluate("\"hello world\""), Ok(Value::Text("hello world".to_string())));
    assert_eq!(evaluate("\"\""), Ok(Value::Text(String::new())));
}

#[test]
fn host_that_answers_with_the_wrong_sort() {
    let odd = |ask: Ask| match ask {
        Ask::Combine(..) => Answer::Truth(true),
        other => host(other),
    };
    let error = run("1 + 2", &mut Table::new(), &odd).unwrap_err();
    assert_eq!(error.fault, Fault::Unanswered);
}

#[test]
fn host_is_asked_with_the_operands_in_order() {
    let record = |ask: Ask| match ask {
        Ask::Combine(Arith::Sub, a, b) => {
            Answer::Number((f64::from_bits(a) * 10.0 + f64::from_bits(b)).to_bits())
        }
        other => host(other),
    };
    assert_eq!(run("7 - 3", &mut Table::new(), &record), Ok(number(73.0)));
}

#[test]
fn first_error_stops_a_block() {
    let mut table = Table::new();
    let block = Expr::Block(vec![
        Expr::Unary { op: "not".to_string(), expr: Box::new(Expr::Number("1".to_string())) },
        Expr::Number("2".to_string()),
    ]);
    let error = eval(&block, &mut table, &host).unwrap_err();
    assert_eq!(error.fault, Fault::Unary { op: "not".to_string(), operand: ValueKind::Number });
}

#[test]
fn bindings_made_before_an_error_stay() {
    let mut table = Table::new();
    let sum = Expr::Binary {
        op: "+".to_string(),
        lhs: Box::new(Expr::Binary {
            op: "=".to_string(),
            lhs: Box::new(Expr::Identifier("x".to_string())),
            rhs: Box::new(Expr::Number("1".to_string())),
        }),
        rhs: Box::new(Expr::Identifier("y".to_string())),
    };
    assert_eq!(eval(&sum, &mut table, &host).unwrap_err().fault, Fault::Unbound);
    assert_eq!(table.get("x"), Some(&number(1.0)));
}
