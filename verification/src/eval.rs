use vstd::prelude::*;
use vstd::string::*;
use crate::error::{Error, ErrorView, Fault, FaultView};
use crate::expr::{trees, Expr, Tree};
use crate::scope::Scope;
use crate::text::same;
use crate::value::{Value, ValueView};

verus! {

/// The bindings of the evaluator: identifier to value.
pub type Table = Scope<Value>;

/// The arithmetic operators. All of them take two numbers and give a number.
#[derive(Debug, Clone, Copy, PartialEq, Eq, Structural)]
pub enum Arith {
    Add,
    Sub,
    Mul,
    Div,
    Pow,
}

/// The comparisons of two numbers.
#[derive(Debug, Clone, Copy, PartialEq, Eq, Structural)]
pub enum Relation {
    Equal,
    Unequal,
    Greater,
    Less,
    AtLeast,
    AtMost,
}

/// A question about numbers. The evaluator does no arithmetic of its own: it
/// puts each of these to the host that its caller supplies.
#[derive(Debug, PartialEq)]
pub enum Ask {
    /// Which number does this literal denote?
    Literal(String),
    /// What is the negation of this number?
    Negate(u64),
    /// What does the operator give on these two numbers, in this order?
    Combine(Arith, u64, u64),
    /// Does the relation hold between these two numbers, in this order?
    Compare(Relation, u64, u64),
}

/// What a host says to an [`Ask`].
#[derive(Debug, Clone, Copy, PartialEq, Eq, Structural)]
pub enum Answer {
    Number(u64),
    Truth(bool),
    Undefined,
}

/// The mathematical content of an [`Ask`].
pub ghost enum AskView {
    Literal(Seq<char>),
    Negate(u64),
    Combine(Arith, u64, u64),
    Compare(Relation, u64, u64),
}

impl View for Ask {
    type V = AskView;

    open spec fn view(&self) -> AskView {
        match self {
            Ask::Literal(text) => AskView::Literal(text@),
            Ask::Negate(n) => AskView::Negate(*n),
            Ask::Combine(op, a, b) => AskView::Combine(*op, *a, *b),
            Ask::Compare(relation, a, b) => AskView::Compare(*relation, *a, *b),
        }
    }
}

/// A host as a function: what it says to each question.
pub type Host = spec_fn(AskView) -> Answer;

/// Whether `host` may say `answer` to a question with the content `ask`.
pub open spec fn replies<F: Fn(Ask) -> Answer>(host: F, ask: AskView, answer: Answer) -> bool {
    exists|question: Ask| question@ == ask && #[trigger] host.ensures((question,), answer)
}

/// What `host` says to a question with the content `ask`.
pub open spec fn reply<F: Fn(Ask) -> Answer>(host: F, ask: AskView) -> Answer {
    choose|answer: Answer| replies(host, ask, answer)
}

/// The function that `host` computes.
pub open spec fn model<F: Fn(Ask) -> Answer>(host: F) -> Host {
    |ask: AskView| reply(host, ask)
}

/// Whether `host` takes every question, and answers questions of the same
/// content alike.
pub open spec fn attentive<F: Fn(Ask) -> Answer>(host: F) -> bool {
    &&& forall|question: Ask| #[trigger] host.requires((question,))
    &&& forall|question: Ask, answer: Answer| #[trigger]
        host.ensures((question,), answer) ==> answer == reply(host, question@)
}

/// How an evaluation ends: with a value or an error, and with the bindings
/// that the scope then holds.
pub ghost struct Outcome {
    pub result: Result<ValueView, ErrorView>,
    pub scope: Map<Seq<char>, ValueView>,
}

/// The arithmetic operator that a symbol names.
pub open spec fn arith_of(op: Seq<char>) -> Option<Arith> {
    if op == "+"@ {
        Some(Arith::Add)
    } else if op == "-"@ {
        Some(Arith::Sub)
    } else if op == "*"@ {
        Some(Arith::Mul)
    } else if op == "/"@ {
        Some(Arith::Div)
    } else if op == "^"@ {
        Some(Arith::Pow)
    } else {
        None
    }
}

/// The comparison that a symbol names.
pub open spec fn relation_of(op: Seq<char>) -> Option<Relation> {
    if op == "=="@ {
        Some(Relation::Equal)
    } else if op == "!="@ {
        Some(Relation::Unequal)
    } else if op == ">"@ {
        Some(Relation::Greater)
    } else if op == "<"@ {
        Some(Relation::Less)
    } else if op == ">="@ {
        Some(Relation::AtLeast)
    } else if op == "<="@ {
        Some(Relation::AtMost)
    } else {
        None
    }
}

/// A number from the host, or the failure to get one.
pub open spec fn number_from(answer: Answer) -> Result<ValueView, ErrorView> {
    match answer {
        Answer::Number(n) => Ok(ValueView::Number(n)),
        _ => Err(ErrorView::of(FaultView::Unanswered)),
    }
}

/// A truth value from the host, or the failure to get one.
pub open spec fn truth_from(answer: Answer) -> Result<ValueView, ErrorView> {
    match answer {
        Answer::Truth(t) => Ok(ValueView::Bool(t)),
        _ => Err(ErrorView::of(FaultView::Unanswered)),
    }
}

/// The number that a literal denotes, or the failure to read it.
pub open spec fn literal_from(text: Seq<char>, answer: Answer) -> Result<ValueView, ErrorView> {
    match answer {
        Answer::Number(n) => Ok(ValueView::Number(n)),
        _ => Err(ErrorView::of(FaultView::Literal(text))),
    }
}

/// A prefix operator applied to a value: `-` negates a number, `not` negates
/// a truth value, and nothing else is defined.
pub open spec fn apply_unary(host: Host, op: Seq<char>, operand: ValueView) -> Result<
    ValueView,
    ErrorView,
> {
    match operand {
        ValueView::Number(n) if op == "-"@ => number_from(host(AskView::Negate(n))),
        ValueView::Bool(b) if op == "not"@ => Ok(ValueView::Bool(!b)),
        _ => Err(ErrorView::of(FaultView::Unary { op, operand: operand.kind() })),
    }
}

/// An infix operator applied to two values.
///
/// On two numbers the arithmetic operators and the comparisons are defined;
/// on two truth values `==`, `!=`, `and` and `or`; nothing else is.
pub open spec fn apply_binary(host: Host, op: Seq<char>, left: ValueView, right: ValueView) -> Result<
    ValueView,
    ErrorView,
> {
    let undefined = Err(
        ErrorView::of(FaultView::Binary { op, left: left.kind(), right: right.kind() }),
    );
    match (left, right) {
        (ValueView::Number(a), ValueView::Number(b)) => {
            if let Some(arith) = arith_of(op) {
                number_from(host(AskView::Combine(arith, a, b)))
            } else if let Some(relation) = relation_of(op) {
                truth_from(host(AskView::Compare(relation, a, b)))
            } else {
                undefined
            }
        },
        (ValueView::Bool(a), ValueView::Bool(b)) => {
            if op == "=="@ {
                Ok(ValueView::Bool(a == b))
            } else if op == "!="@ {
                Ok(ValueView::Bool(a != b))
            } else if op == "and"@ {
                Ok(ValueView::Bool(a && b))
            } else if op == "or"@ {
                Ok(ValueView::Bool(a || b))
            } else {
                undefined
            }
        },
        _ => undefined,
    }
}

/// Whether a binary node is an assignment: its operator is `=` and its left
/// side is an identifier.
pub open spec fn assigns(op: Seq<char>, lhs: Tree) -> bool {
    op == "="@ && lhs is Identifier
}

/// The value of a tree in a scope, and the scope afterwards.
///
/// Both sides of an infix operator are evaluated, the left one first,
/// whatever the operator. An assignment binds in the scope it stands in. A
/// block works on a copy of the scope, so nothing it binds is seen outside.
/// The first error ends the evaluation; the scope then holds what was bound
/// until that point.
pub open spec fn eval_tree(host: Host, tree: Tree, scope: Map<Seq<char>, ValueView>) -> Outcome
    decreases tree, 0nat,
{
    match tree {
        Tree::Bool(b) => Outcome { result: Ok(ValueView::Bool(b)), scope },
        Tree::Number(text) => Outcome {
            result: literal_from(text, host(AskView::Literal(text))),
            scope,
        },
        Tree::Text(text) => Outcome { result: Ok(ValueView::Text(text)), scope },
        Tree::Identifier(name) => Outcome {
            result: if scope.contains_key(name) {
                Ok(scope[name])
            } else {
                Err(ErrorView::of(FaultView::Unbound))
            },
            scope,
        },
        Tree::Unary { op, operand } => {
            let inner = eval_tree(host, *operand, scope);
            match inner.result {
                Ok(value) => Outcome { result: apply_unary(host, op, value), scope: inner.scope },
                Err(_) => inner,
            }
        },
        Tree::Binary { op, lhs, rhs } => {
            if assigns(op, *lhs) {
                let right = eval_tree(host, *rhs, scope);
                match right.result {
                    Ok(value) => Outcome {
                        result: Ok(value),
                        scope: right.scope.insert(lhs->Identifier_0, value),
                    },
                    Err(_) => right,
                }
            } else {
                let left = eval_tree(host, *lhs, scope);
                match left.result {
                    Ok(a) => {
                        let right = eval_tree(host, *rhs, left.scope);
                        match right.result {
                            Ok(b) => Outcome {
                                result: apply_binary(host, op, a, b),
                                scope: right.scope,
                            },
                            Err(_) => right,
                        }
                    },
                    Err(_) => left,
                }
            }
        },
        Tree::Block(items) => Outcome {
            result: eval_items(host, items, 0, scope, ValueView::Unit).result,
            scope,
        },
        Tree::Reserved => Outcome { result: Err(ErrorView::of(FaultView::Unanswered)), scope },
    }
}

/// The items of a block from position `from` on, one after the other in one
/// scope. The value is that of the last item, or `last` where none is left.
pub open spec fn eval_items(
    host: Host,
    items: Seq<Tree>,
    from: nat,
    scope: Map<Seq<char>, ValueView>,
    last: ValueView,
) -> Outcome
    decreases items, items.len() - from,
{
    if from >= items.len() {
        Outcome { result: Ok(last), scope }
    } else {
        let step = eval_tree(host, items[from as int], scope);
        match step.result {
            Ok(value) => eval_items(host, items, from + 1, step.scope, value),
            Err(_) => step,
        }
    }
}

/// The content of what an evaluation returned.
pub open spec fn ended(result: Result<Value, Error>) -> Result<ValueView, ErrorView> {
    match result {
        Ok(value) => Ok(value@),
        Err(error) => Err(error@),
    }
}

/// The arithmetic operator that a symbol names.
pub fn arith(op: &str) -> (found: Option<Arith>)
    ensures
        found == arith_of(op@),
{
    if same(op, "+") {
        Some(Arith::Add)
    } else if same(op, "-") {
        Some(Arith::Sub)
    } else if same(op, "*") {
        Some(Arith::Mul)
    } else if same(op, "/") {
        Some(Arith::Div)
    } else if same(op, "^") {
        Some(Arith::Pow)
    } else {
        None
    }
}

/// The comparison that a symbol names.
pub fn relation(op: &str) -> (found: Option<Relation>)
    ensures
        found == relation_of(op@),
{
    if same(op, "==") {
        Some(Relation::Equal)
    } else if same(op, "!=") {
        Some(Relation::Unequal)
    } else if same(op, ">") {
        Some(Relation::Greater)
    } else if same(op, "<") {
        Some(Relation::Less)
    } else if same(op, ">=") {
        Some(Relation::AtLeast)
    } else if same(op, "<=") {
        Some(Relation::AtMost)
    } else {
        None
    }
}

fn number(answer: Answer) -> (result: Result<Value, Error>)
    ensures
        ended(result) == number_from(answer),
{
    match answer {
        Answer::Number(n) => Ok(Value::Number(n)),
        _ => Err(Error::new(Fault::Unanswered)),
    }
}

fn truth(answer: Answer) -> (result: Result<Value, Error>)
    ensures
        ended(result) == truth_from(answer),
{
    match answer {
        Answer::Truth(t) => Ok(Value::Bool(t)),
        _ => Err(Error::new(Fault::Unanswered)),
    }
}

/// Applies a prefix operator to a value.
pub fn unary<F: Fn(Ask) -> Answer>(op: &str, operand: &Value, host: &F) -> (result: Result<
    Value,
    Error,
>)
    requires
        attentive(*host),
    ensures
        ended(result) == apply_unary(model(*host), op@, operand@),
{
    match operand {
        Value::Number(n) if same(op, "-") => number(host(Ask::Negate(*n))),
        Value::Bool(b) if same(op, "not") => Ok(Value::Bool(!*b)),
        _ => Err(Error::new(Fault::Unary { op: String::from_str(op), operand: operand.kind() })),
    }
}

/// Applies an infix operator to two values.
pub fn binary<F: Fn(Ask) -> Answer>(op: &str, left: &Value, right: &Value, host: &F) -> (result:
    Result<Value, Error>)
    requires
        attentive(*host),
    ensures
        ended(result) == apply_binary(model(*host), op@, left@, right@),
{
    match (left, right) {
        (Value::Number(a), Value::Number(b)) => {
            if let Some(arith) = arith(op) {
                return number(host(Ask::Combine(arith, *a, *b)));
            } else if let Some(relation) = relation(op) {
                return truth(host(Ask::Compare(relation, *a, *b)));
            }
        },
        (Value::Bool(a), Value::Bool(b)) => {
            if same(op, "==") {
                return Ok(Value::Bool(*a == *b));
            } else if same(op, "!=") {
                return Ok(Value::Bool(*a != *b));
            } else if same(op, "and") {
                return Ok(Value::Bool(*a && *b));
            } else if same(op, "or") {
                return Ok(Value::Bool(*a || *b));
            }
        },
        _ => {},
    }
    Err(
        Error::new(
            Fault::Binary { op: String::from_str(op), left: left.kind(), right: right.kind() },
        ),
    )
}

/// Evaluates an expression in a scope.
///
/// Numbers are the host's business: it is asked what a literal denotes and
/// what each operation on numbers gives.
pub fn eval<F: Fn(Ask) -> Answer>(expr: &Expr, table: &mut Table, host: &F) -> (result: Result<
    Value,
    Error,
>)
    requires
        expr@.kernel(),
        attentive(*host),
    ensures
        (Outcome { result: ended(result), scope: final(table)@ }) == eval_tree(
            model(*host),
            expr@,
            old(table)@,
        ),
    decreases expr, 1nat,
{
    match expr {
        Expr::Bool(b) => Ok(Value::Bool(*b)),
        Expr::Number(text) => match host(Ask::Literal(text.clone())) {
            Answer::Number(n) => Ok(Value::Number(n)),
            _ => Err(Error::new(Fault::Literal(text.clone()))),
        },
        Expr::Text(text) => Ok(Value::Text(text.clone())),
        Expr::Identifier(name) => match table.get(name.as_str()) {
            Some(value) => Ok(value.clone()),
            None => Err(Error::new(Fault::Unbound)),
        },
        Expr::Unary { op, expr: operand } => {
            let value = eval(operand, table, host)?;
            unary(op.as_str(), &value, host)
        },
        Expr::Binary { op, lhs, rhs } => {
            if same(op.as_str(), "=") {
                if let Expr::Identifier(name) = &**lhs {
                    assert(lhs@ == Tree::Identifier(name@));
                    assert(assigns(op@, lhs@));
                    let value = eval(rhs, table, host)?;
                    table.insert(name.clone(), value.clone());
                    return Ok(value);
                }
            }
            let left = eval(lhs, table, host)?;
            let right = eval(rhs, table, host)?;
            binary(op.as_str(), &left, &right, host)
        },
        Expr::Block(items) => {
            let mut local = table.duplicate();
            eval_block(items, &mut local, host)
        },
        _ => {
            proof {
                assert(false);
            }
            vstd::pervasive::unreached()
        },
    }
}

/// Evaluates the items of a block, one after the other, in `local`.
fn eval_block<F: Fn(Ask) -> Answer>(items: &Vec<Expr>, local: &mut Table, host: &F) -> (result:
    Result<Value, Error>)
    requires
        Tree::kernel_from(trees(items@), 0),
        attentive(*host),
    ensures
        (Outcome { result: ended(result), scope: final(local)@ }) == eval_items(
            model(*host),
            trees(items@),
            0,
            old(local)@,
            ValueView::Unit,
        ),
    decreases items, 0nat,
{
    let mut last = Value::Unit;
    let mut i: usize = 0;
    while i < items.len()
        invariant
            i <= items.len(),
            Tree::kernel_from(trees(items@), 0),
            attentive(*host),
            eval_items(model(*host), trees(items@), i as nat, local@, last@) == eval_items(
                model(*host),
                trees(items@),
                0,
                old(local)@,
                ValueView::Unit,
            ),
        decreases items.len() - i,
    {
        proof {
            Tree::kernel_items(trees(items@), 0, i as int);
            assert(trees(items@)[i as int] == items[i as int]@);
        }
        match eval(&items[i], local, host) {
            Ok(value) => {
                last = value;
            },
            Err(error) => {
                return Err(error);
            },
        }
        i += 1;
    }
    Ok(last)
}

} // verus!
