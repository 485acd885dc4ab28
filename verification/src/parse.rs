use vstd::prelude::*;
use vstd::string::*;
use crate::check::{check_tree, ty, Env};
use crate::error::{Error, ErrorView, Fault, FaultView};
use crate::expr::{trees, Expr, Tree};
use crate::text::same;
use crate::token::{failure, pull, pull_advances, Cursor, Kind, Lexeme, Token, Tokens};

verus! {

/// The binding powers of an infix operator, left and right. A higher power
/// binds tighter. Where the right power is the higher one the operator
/// groups to the left, else to the right: `^` and `=` group to the right.
pub open spec fn infix_binding(op: Seq<char>) -> Option<(usize, usize)> {
    if op == "^"@ {
        Some((15usize, 14usize))
    } else if op == "*"@ || op == "/"@ {
        Some((10usize, 11usize))
    } else if op == "+"@ || op == "-"@ {
        Some((8usize, 9usize))
    } else if op == "=="@ || op == "!="@ || op == "<"@ || op == ">"@ || op == ">="@ || op
        == "<="@ {
        Some((6usize, 7usize))
    } else if op == "and"@ {
        Some((4usize, 5usize))
    } else if op == "or"@ {
        Some((2usize, 3usize))
    } else if op == "="@ {
        Some((1usize, 0usize))
    } else {
        None
    }
}

/// The binding power of a prefix operator.
pub open spec fn prefix_binding(op: Seq<char>) -> Option<usize> {
    if op == "not"@ || op == "-"@ {
        Some(12usize)
    } else {
        None
    }
}

/// The binding powers of an infix operator, left and right.
pub fn infix_power(op: &str) -> (power: Option<(usize, usize)>)
    ensures
        power == infix_binding(op@),
{
    if same(op, "^") {
        Some((15, 14))
    } else if same(op, "*") || same(op, "/") {
        Some((10, 11))
    } else if same(op, "+") || same(op, "-") {
        Some((8, 9))
    } else if same(op, "==") || same(op, "!=") || same(op, "<") || same(op, ">") || same(op, ">=")
        || same(op, "<=") {
        Some((6, 7))
    } else if same(op, "and") {
        Some((4, 5))
    } else if same(op, "or") {
        Some((2, 3))
    } else if same(op, "=") {
        Some((1, 0))
    } else {
        None
    }
}

/// The binding power of a prefix operator.
pub fn prefix_power(op: &str) -> (power: Option<usize>)
    ensures
        power == prefix_binding(op@),
{
    if same(op, "not") || same(op, "-") {
        Some(12)
    } else {
        None
    }
}

/// How a parse ends: with a tree or an error, and at a place in the source.
pub ghost struct Parsed {
    pub result: Result<Tree, ErrorView>,
    pub cursor: Cursor,
}

/// Whether a token is the symbol or word `text`. A text literal is neither,
/// whatever stands between its quotes.
pub open spec fn reads(token: Lexeme, text: Seq<char>) -> bool {
    token.kind != Kind::Text && token.text == text
}

/// The error where a token is required and none comes: the lexer's own, if
/// the source cannot be read there, else the end of input.
pub open spec fn starved(c: Cursor) -> ErrorView {
    match failure(c) {
        Some(error) => error,
        None => ErrorView::of(FaultView::UnexpectedEnd),
    }
}

/// How requiring the token `text` ends.
pub ghost struct Expected {
    pub result: Result<Lexeme, ErrorView>,
    pub cursor: Cursor,
}

/// Requires the next token to be `text`. The token is consumed whether it is
/// the right one or not.
pub open spec fn expect_at(c: Cursor, text: Seq<char>) -> Expected {
    let next = pull(c);
    Expected {
        result: match next.token {
            None => Err(starved(next.cursor)),
            Some(token) => if reads(token, text) {
                Ok(token)
            } else {
                Err(
                    ErrorView::at(
                        FaultView::Expected { wanted: text, found: token.text },
                        token.span,
                    ),
                )
            },
        },
        cursor: next.cursor,
    }
}

/// A tree, followed by the token `text`.
pub open spec fn closed_by(inner: Parsed, text: Seq<char>) -> Parsed {
    match inner.result {
        Ok(tree) => {
            let close = expect_at(inner.cursor, text);
            Parsed {
                result: match close.result {
                    Ok(_) => Ok(tree),
                    Err(error) => Err(error),
                },
                cursor: close.cursor,
            }
        },
        Err(_) => inner,
    }
}

/// An operand: a literal, an identifier, a prefix operator with its operand,
/// an expression between grouping tokens, a block between `do` and `end`, or
/// a declaration `var target = value`, which is the assignment
/// `target = value`.
pub open spec fn parse_primary(c: Cursor) -> Parsed
    decreases c.rest.len(), 0nat,
    via parse_primary_decreases
{
    let next = pull(c);
    match next.token {
        None => Parsed { result: Err(starved(next.cursor)), cursor: next.cursor },
        Some(token) => {
            let after = next.cursor;
            if token.kind == Kind::Number {
                Parsed { result: Ok(Tree::Number(token.text)), cursor: after }
            } else if token.kind == Kind::Text {
                Parsed { result: Ok(Tree::Text(token.text)), cursor: after }
            } else if token.kind == Kind::Bool {
                Parsed { result: Ok(Tree::Bool(token.text == "true"@)), cursor: after }
            } else if token.kind == Kind::Identifier {
                Parsed { result: Ok(Tree::Identifier(token.text)), cursor: after }
            } else if token.kind == Kind::Operator {
                match prefix_binding(token.text) {
                    Some(power) => {
                        let operand = parse_expression(after, power);
                        match operand.result {
                            Ok(tree) => Parsed {
                                result: Ok(Tree::Unary { op: token.text, operand: Box::new(tree) }),
                                cursor: operand.cursor,
                            },
                            Err(_) => operand,
                        }
                    },
                    None => Parsed {
                        result: Err(ErrorView::at(FaultView::NotUnary(token.text), token.span)),
                        cursor: after,
                    },
                }
            } else if token.kind == Kind::Grouping {
                closed_by(parse_expression(after, 0), ")"@)
            } else if token.text == "do"@ {
                closed_by(parse_items(after, Some("end"@), Seq::empty()), "end"@)
            } else if token.text == "var"@ {
                let target = parse_expression(after, 2);
                let sign = closed_by(target, "="@);
                match sign.result {
                    Ok(lhs) => {
                        if sign.cursor.rest.len() < c.rest.len() {
                            let value = parse_expression(sign.cursor, 0);
                            match value.result {
                                Ok(rhs) => Parsed {
                                    result: Ok(
                                        Tree::Binary {
                                            op: "="@,
                                            lhs: Box::new(lhs),
                                            rhs: Box::new(rhs),
                                        },
                                    ),
                                    cursor: value.cursor,
                                },
                                Err(_) => value,
                            }
                        } else {
                            sign
                        }
                    },
                    Err(_) => sign,
                }
            } else {
                Parsed {
                    result: Err(ErrorView::at(FaultView::UnexpectedKeyword(token.text), token.span)),
                    cursor: after,
                }
            }
        },
    }
}

/// An operand, followed by as many infix operators with their right sides as
/// bind with at least `min_power`.
pub open spec fn parse_expression(c: Cursor, min_power: usize) -> Parsed
    decreases c.rest.len(), 1nat,
{
    let first = parse_primary(c);
    match first.result {
        Ok(left) => {
            if first.cursor.rest.len() < c.rest.len() {
                parse_climb(first.cursor, left, min_power)
            } else {
                first
            }
        },
        Err(_) => first,
    }
}

/// The tree that `left` grows into: while the next token is an infix operator
/// whose left power is at least `min_power`, the operator is consumed, its
/// right side is parsed with the operator's right power, and the two sides
/// become the new left side.
pub open spec fn parse_climb(c: Cursor, left: Tree, min_power: usize) -> Parsed
    decreases c.rest.len(), 2nat,
    via parse_climb_decreases
{
    let next = pull(c);
    if next.token is Some && next.token->0.kind == Kind::Operator {
        let token = next.token->0;
        match infix_binding(token.text) {
            Some((left_power, right_power)) => {
                if left_power < min_power {
                    Parsed { result: Ok(left), cursor: c }
                } else {
                    let right = parse_expression(next.cursor, right_power);
                    match right.result {
                        Ok(rhs) => {
                            let joined = Tree::Binary {
                                op: token.text,
                                lhs: Box::new(left),
                                rhs: Box::new(rhs),
                            };
                            if right.cursor.rest.len() < c.rest.len() {
                                parse_climb(right.cursor, joined, min_power)
                            } else {
                                Parsed { result: Ok(joined), cursor: right.cursor }
                            }
                        },
                        Err(_) => right,
                    }
                }
            },
            None => Parsed {
                result: Err(ErrorView::at(FaultView::NotInfix(token.text), token.span)),
                cursor: c,
            },
        }
    } else {
        Parsed { result: Ok(left), cursor: c }
    }
}

/// A block: the expressions up to the end of the input or, where `end` names
/// a token, up to that token, which is left in place. `items` holds the
/// expressions that were parsed already.
pub open spec fn parse_items(c: Cursor, end: Option<Seq<char>>, items: Seq<Tree>) -> Parsed
    decreases c.rest.len(), 3nat,
{
    let next = pull(c);
    match next.token {
        None => Parsed {
            result: match failure(next.cursor) {
                Some(error) => Err(error),
                None => Ok(Tree::Block(items)),
            },
            cursor: next.cursor,
        },
        Some(token) => {
            if end is Some && reads(token, end->0) {
                Parsed { result: Ok(Tree::Block(items)), cursor: c }
            } else {
                let item = parse_expression(c, 0);
                match item.result {
                    Ok(tree) => {
                        if item.cursor.rest.len() < c.rest.len() {
                            parse_items(item.cursor, end, items.push(tree))
                        } else {
                            Parsed { result: Ok(Tree::Block(items.push(tree))), cursor: item.cursor }
                        }
                    },
                    Err(_) => item,
                }
            }
        },
    }
}

#[via_fn]
proof fn parse_primary_decreases(c: Cursor) {
    pull_advances(c);
}

#[via_fn]
proof fn parse_climb_decreases(c: Cursor, left: Tree, min_power: usize) {
    pull_advances(c);
}

/// An operand never ends before the place where it began, and where there
/// is one, it ends after that place.
pub proof fn primary_advances(c: Cursor)
    ensures
        parse_primary(c).cursor.rest.len() <= c.rest.len(),
        parse_primary(c).result is Ok ==> parse_primary(c).cursor.rest.len() < c.rest.len(),
    decreases c.rest.len(), 0nat,
{
    pull_advances(c);
    let next = pull(c);
    if let Some(token) = next.token {
        let after = next.cursor;
        if token.kind == Kind::Number || token.kind == Kind::Text || token.kind == Kind::Bool
            || token.kind == Kind::Identifier {
        } else if token.kind == Kind::Operator {
            if let Some(power) = prefix_binding(token.text) {
                expression_advances(after, power);
            }
        } else if token.kind == Kind::Grouping {
            expression_advances(after, 0);
            pull_advances(parse_expression(after, 0).cursor);
        } else if token.text == "do"@ {
            items_advance(after, Some("end"@), Seq::empty());
            pull_advances(parse_items(after, Some("end"@), Seq::empty()).cursor);
        } else if token.text == "var"@ {
            expression_advances(after, 2);
            let target = parse_expression(after, 2);
            pull_advances(target.cursor);
            let sign = closed_by(target, "="@);
            if sign.result is Ok {
                expression_advances(sign.cursor, 0);
            }
        }
    }
}

/// An expression never ends before the place where it began, and where there
/// is one, it ends after that place: the parser always moves on.
pub proof fn expression_advances(c: Cursor, min_power: usize)
    ensures
        parse_expression(c, min_power).cursor.rest.len() <= c.rest.len(),
        parse_expression(c, min_power).result is Ok ==> parse_expression(
            c,
            min_power,
        ).cursor.rest.len() < c.rest.len(),
    decreases c.rest.len(), 1nat,
{
    primary_advances(c);
    let first = parse_primary(c);
    if let Ok(left) = first.result {
        climb_advances(first.cursor, left, min_power);
    }
}

/// Growing a left side never ends before the place where it began.
pub proof fn climb_advances(c: Cursor, left: Tree, min_power: usize)
    ensures
        parse_climb(c, left, min_power).cursor.rest.len() <= c.rest.len(),
    decreases c.rest.len(), 2nat,
{
    pull_advances(c);
    let next = pull(c);
    if next.token is Some && next.token->0.kind == Kind::Operator {
        let token = next.token->0;
        if let Some((left_power, right_power)) = infix_binding(token.text) {
            if left_power >= min_power {
                expression_advances(next.cursor, right_power);
                let right = parse_expression(next.cursor, right_power);
                if let Ok(rhs) = right.result {
                    let joined = Tree::Binary {
                        op: token.text,
                        lhs: Box::new(left),
                        rhs: Box::new(rhs),
                    };
                    climb_advances(right.cursor, joined, min_power);
                }
            }
        }
    }
}

/// A block never ends before the place where it began.
pub proof fn items_advance(c: Cursor, end: Option<Seq<char>>, items: Seq<Tree>)
    ensures
        parse_items(c, end, items).cursor.rest.len() <= c.rest.len(),
    decreases c.rest.len(), 3nat,
{
    pull_advances(c);
    let next = pull(c);
    if let Some(token) = next.token {
        if !(end is Some && reads(token, end->0)) {
            expression_advances(c, 0);
            let item = parse_expression(c, 0);
            if let Ok(tree) = item.result {
                items_advance(item.cursor, end, items.push(tree));
            }
        }
    }
}

/// A whole source: the block of its expressions, which must pass the checker
/// in a scope that binds nothing.
pub open spec fn parse_source(c: Cursor) -> Result<Tree, ErrorView> {
    let root = parse_items(c, None, Seq::empty());
    match root.result {
        Ok(tree) => match check_tree(tree, Map::empty()).result {
            Ok(_) => Ok(tree),
            Err(error) => Err(error),
        },
        Err(error) => Err(error),
    }
}

/// The content of what a parser returned.
pub open spec fn grown(result: Result<Expr, Error>) -> Result<Tree, ErrorView> {
    match result {
        Ok(expr) => Ok(expr@),
        Err(error) => Err(error@),
    }
}

/// The content of an optional piece of text.
pub open spec fn named(text: Option<&str>) -> Option<Seq<char>> {
    match text {
        Some(text) => Some(text@),
        None => None,
    }
}

/// Whether what a parser returned is a tree of kernel forms, where it is a
/// tree at all.
pub open spec fn sound(result: Result<Expr, Error>) -> bool {
    match result {
        Ok(expr) => expr@.kernel(),
        Err(_) => true,
    }
}

proof fn kernel_push(items: Seq<Tree>, from: nat, tree: Tree)
    requires
        Tree::kernel_from(items, from),
        tree.kernel(),
        from <= items.len(),
    ensures
        Tree::kernel_from(items.push(tree), from),
    decreases items.len() - from,
{
    if from < items.len() {
        assert(items.push(tree)[from as int] == items[from as int]);
        kernel_push(items, from + 1, tree);
    } else {
        assert(Tree::kernel_from(items.push(tree), from + 1));
    }
}

fn starve(tokens: &Tokens) -> (error: Error)
    ensures
        error@ == starved(tokens@),
{
    match tokens.failure() {
        Some(error) => error,
        None => Error::new(Fault::UnexpectedEnd),
    }
}

fn is_token(token: &Token, text: &str) -> (is: bool)
    ensures
        is == reads(token@, text@),
{
    token.kind != Kind::Text && same(token.text, text)
}

/// Consumes the next token and requires it to be `text`.
pub fn expect<'a>(tokens: &mut Tokens<'a>, text: &str) -> (result: Result<Token<'a>, Error>)
    ensures
        expect_at(old(tokens)@, text@) == (Expected {
            result: match result {
                Ok(token) => Ok(token@),
                Err(error) => Err(error@),
            },
            cursor: final(tokens)@,
        }),
{
    match tokens.next() {
        None => Err(starve(tokens)),
        Some(token) => {
            if is_token(&token, text) {
                Ok(token)
            } else {
                Err(
                    Error::new(
                        Fault::Expected {
                            wanted: String::from_str(text),
                            found: String::from_str(token.text),
                        },
                    ).span(token.span),
                )
            }
        },
    }
}

/// Parses one operand.
pub fn primary<'a>(tokens: &mut Tokens<'a>) -> (result: Result<Expr, Error>)
    ensures
        (Parsed { result: grown(result), cursor: final(tokens)@ }) == parse_primary(old(tokens)@),
        result is Ok ==> final(tokens)@.rest.len() < old(tokens)@.rest.len(),
        sound(result),
    decreases old(tokens)@.rest.len(), 0nat,
{
    proof {
        pull_advances(tokens@);
    }
    let token = match tokens.next() {
        None => {
            return Err(starve(tokens));
        },
        Some(token) => token,
    };
    let ghost after = tokens@;
    match token.kind {
        Kind::Number => Ok(Expr::Number(String::from_str(token.text))),
        Kind::Text => Ok(Expr::Text(String::from_str(token.text))),
        Kind::Bool => Ok(Expr::Bool(same(token.text, "true"))),
        Kind::Identifier => Ok(Expr::Identifier(String::from_str(token.text))),
        Kind::Operator => {
            let power = match prefix_power(token.text) {
                None => {
                    return Err(
                        Error::new(Fault::NotUnary(String::from_str(token.text))).span(token.span),
                    );
                },
                Some(power) => power,
            };
            let right = expression(tokens, power)?;
            Ok(Expr::Unary { op: String::from_str(token.text), expr: Box::new(right) })
        },
        Kind::Grouping => {
            let inner = expression(tokens, 0)?;
            proof {
                pull_advances(tokens@);
            }
            expect(tokens, ")")?;
            Ok(inner)
        },
        Kind::Keyword => {
            if same(token.text, "do") {
                let body = block(tokens, Some("end"))?;
                proof {
                    pull_advances(tokens@);
                }
                expect(tokens, "end")?;
                Ok(body)
            } else if same(token.text, "var") {
                let left = expression(tokens, 2)?;
                proof {
                    pull_advances(tokens@);
                }
                expect(tokens, "=")?;
                let right = expression(tokens, 0)?;
                Ok(
                    Expr::Binary {
                        op: String::from_str("="),
                        lhs: Box::new(left),
                        rhs: Box::new(right),
                    },
                )
            } else {
                Err(
                    Error::new(Fault::UnexpectedKeyword(String::from_str(token.text))).span(
                        token.span,
                    ),
                )
            }
        },
        _ => {
            proof {
                assert(false);
            }
            vstd::pervasive::unreached()
        },
    }
}

/// Parses an operand and the infix operators after it that bind with at
/// least `min_power`.
pub fn expression<'a>(tokens: &mut Tokens<'a>, min_power: usize) -> (result: Result<Expr, Error>)
    ensures
        (Parsed { result: grown(result), cursor: final(tokens)@ }) == parse_expression(
            old(tokens)@,
            min_power,
        ),
        result is Ok ==> final(tokens)@.rest.len() < old(tokens)@.rest.len(),
        sound(result),
    decreases old(tokens)@.rest.len(), 1nat,
{
    let mut left = primary(tokens)?;
    loop
        invariant
            parse_climb(tokens@, left@, min_power) == parse_expression(old(tokens)@, min_power),
            tokens@.rest.len() < old(tokens)@.rest.len(),
            left@.kernel(),
        ensures
            (Parsed { result: Ok(left@), cursor: tokens@ }) == parse_expression(
                old(tokens)@,
                min_power,
            ),
            tokens@.rest.len() < old(tokens)@.rest.len(),
            left@.kernel(),
        decreases tokens@.rest.len(),
    {
        proof {
            pull_advances(tokens@);
        }
        let token = match tokens.peek() {
            Some(token) => token,
            None => {
                break ;
            },
        };
        if token.kind != Kind::Operator {
            break ;
        }
        let (left_power, right_power) = match infix_power(token.text) {
            None => {
                return Err(
                    Error::new(Fault::NotInfix(String::from_str(token.text))).span(token.span),
                );
            },
            Some(power) => power,
        };
        if left_power < min_power {
            break ;
        }
        tokens.next();
        let right = expression(tokens, right_power)?;
        left =
        Expr::Binary { op: String::from_str(token.text), lhs: Box::new(left), rhs: Box::new(right) };
    }
    Ok(left)
}

/// Parses the expressions of a block, up to the end of the input or to the
/// token that `end` names.
pub fn block<'a>(tokens: &mut Tokens<'a>, end: Option<&str>) -> (result: Result<Expr, Error>)
    ensures
        (Parsed { result: grown(result), cursor: final(tokens)@ }) == parse_items(
            old(tokens)@,
            named(end),
            Seq::empty(),
        ),
        result is Ok ==> final(tokens)@.rest.len() <= old(tokens)@.rest.len(),
        sound(result),
    decreases old(tokens)@.rest.len(), 3nat,
{
    let mut items: Vec<Expr> = Vec::new();
    assert(trees(items@) =~= Seq::<Tree>::empty());
    loop
        invariant
            parse_items(tokens@, named(end), trees(items@)) == parse_items(
                old(tokens)@,
                named(end),
                Seq::empty(),
            ),
            tokens@.rest.len() <= old(tokens)@.rest.len(),
            Tree::kernel_from(trees(items@), 0),
        decreases tokens@.rest.len(),
    {
        proof {
            pull_advances(tokens@);
        }
        let token = match tokens.peek() {
            Some(token) => token,
            None => {
                tokens.next();
                return match tokens.failure() {
                    Some(error) => Err(error),
                    None => Ok(Expr::Block(items)),
                };
            },
        };
        let closing = match end {
            Some(text) => is_token(&token, text),
            None => false,
        };
        if closing {
            return Ok(Expr::Block(items));
        }
        let ghost before = trees(items@);
        let item = expression(tokens, 0)?;
        proof {
            kernel_push(before, 0, item@);
        }
        items.push(item);
        assert(trees(items@) =~= before.push(item@));
    }
}

/// Parses a whole source and checks it.
///
/// The tree is the block of the expressions in the source. The parser's
/// first error is returned, or else the checker's; no tree is returned that
/// the checker refuses.
pub fn parse(tokens: Tokens) -> (result: Result<Expr, Error>)
    ensures
        grown(result) == parse_source(tokens@),
        sound(result),
{
    let mut tokens = tokens;
    let root = block(&mut tokens, None)?;
    let mut env = Env::new();
    match ty(&root, &mut env) {
        Ok(_) => Ok(root),
        Err(error) => Err(error),
    }
}

} // verus!
