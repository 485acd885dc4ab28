use vstd::prelude::*;
use vstd::string::*;
use crate::error::{Error, ErrorView, Fault, FaultView};
use crate::eval::assigns;
use crate::expr::{trees, Expr, Tree};
use crate::scope::Scope;
use crate::text::same;

verus! {

/// The bindings of the checker: identifier to type tag.
pub type Env = Scope<String>;

/// How a check ends: with a type tag or an error, and with the tags that the
/// scope then holds.
pub ghost struct Verdict {
    pub result: Result<Seq<char>, ErrorView>,
    pub env: Map<Seq<char>, Seq<char>>,
}

/// The type tag of a tree in a scope, and the scope afterwards.
///
/// A literal has the tag of its sort and an identifier the tag it is bound
/// to. A prefix operator passes the tag of its operand on. An assignment
/// binds the identifier to the tag of the right side, which is also its own.
/// Any other infix operator asks that both sides have one tag, which is then
/// its own; the operator itself is not looked at. A block works on a copy of
/// the scope and has the tag of its last item, or `unit` where it is empty.
/// The first error ends the check.
pub open spec fn check_tree(tree: Tree, env: Map<Seq<char>, Seq<char>>) -> Verdict
    decreases tree, 0nat,
{
    match tree {
        Tree::Bool(_) => Verdict { result: Ok("bool"@), env },
        Tree::Number(_) => Verdict { result: Ok("number"@), env },
        Tree::Text(_) => Verdict { result: Ok("text"@), env },
        Tree::Identifier(name) => Verdict {
            result: if env.contains_key(name) {
                Ok(env[name])
            } else {
                Err(ErrorView::of(FaultView::Unbound))
            },
            env,
        },
        Tree::Unary { operand, .. } => check_tree(*operand, env),
        Tree::Binary { op, lhs, rhs } => {
            if assigns(op, *lhs) {
                let right = check_tree(*rhs, env);
                match right.result {
                    Ok(tag) => Verdict {
                        result: Ok(tag),
                        env: right.env.insert(lhs->Identifier_0, tag),
                    },
                    Err(_) => right,
                }
            } else {
                let left = check_tree(*lhs, env);
                match left.result {
                    Ok(expected) => {
                        let right = check_tree(*rhs, left.env);
                        match right.result {
                            Ok(found) => Verdict {
                                result: if expected == found {
                                    Ok(expected)
                                } else {
                                    Err(ErrorView::of(FaultView::Mismatch { expected, found }))
                                },
                                env: right.env,
                            },
                            Err(_) => right,
                        }
                    },
                    Err(_) => left,
                }
            }
        },
        Tree::Block(items) => Verdict { result: check_items(items, 0, env, "unit"@).result, env },
        Tree::Reserved => Verdict { result: Err(ErrorView::of(FaultView::Unanswered)), env },
    }
}

/// The items of a block from position `from` on, one after the other in one
/// scope. The tag is that of the last item, or `last` where none is left.
pub open spec fn check_items(
    items: Seq<Tree>,
    from: nat,
    env: Map<Seq<char>, Seq<char>>,
    last: Seq<char>,
) -> Verdict
    decreases items, items.len() - from,
{
    if from >= items.len() {
        Verdict { result: Ok(last), env }
    } else {
        let step = check_tree(items[from as int], env);
        match step.result {
            Ok(tag) => check_items(items, from + 1, step.env, tag),
            Err(_) => step,
        }
    }
}

/// The content of what a check returned.
pub open spec fn judged(result: Result<String, Error>) -> Result<Seq<char>, ErrorView> {
    match result {
        Ok(tag) => Ok(tag@),
        Err(error) => Err(error@),
    }
}

/// Checks an expression in a scope and gives its type tag.
pub fn ty(expr: &Expr, env: &mut Env) -> (result: Result<String, Error>)
    requires
        expr@.kernel(),
    ensures
        (Verdict { result: judged(result), env: final(env)@ }) == check_tree(expr@, old(env)@),
    decreases expr, 1nat,
{
    match expr {
        Expr::Bool(_) => Ok(String::from_str("bool")),
        Expr::Number(_) => Ok(String::from_str("number")),
        Expr::Text(_) => Ok(String::from_str("text")),
        Expr::Identifier(name) => match env.get(name.as_str()) {
            Some(tag) => Ok(tag.clone()),
            None => Err(Error::new(Fault::Unbound)),
        },
        Expr::Unary { expr: operand, .. } => ty(operand, env),
        Expr::Binary { op, lhs, rhs } => {
            if same(op.as_str(), "=") {
                if let Expr::Identifier(name) = &**lhs {
                    assert(lhs@ == Tree::Identifier(name@));
                    assert(assigns(op@, lhs@));
                    let tag = ty(rhs, env)?;
                    env.insert(name.clone(), tag.clone());
                    return Ok(tag);
                }
            }
            let expected = ty(lhs, env)?;
            let found = ty(rhs, env)?;
            if expected == found {
                Ok(expected)
            } else {
                Err(Error::new(Fault::Mismatch { expected, found }))
            }
        },
        Expr::Block(items) => {
            let mut local = env.duplicate();
            check_block(items, &mut local)
        },
        _ => {
            proof {
                assert(false);
            }
            vstd::pervasive::unreached()
        },
    }
}

/// Checks the items of a block, one after the other, in `local`.
fn check_block(items: &Vec<Expr>, local: &mut Env) -> (result: Result<String, Error>)
    requires
        Tree::kernel_from(trees(items@), 0),
    ensures
        (Verdict { result: judged(result), env: final(local)@ }) == check_items(
            trees(items@),
            0,
            old(local)@,
            "unit"@,
        ),
    decreases items, 0nat,
{
    let mut last = String::from_str("unit");
    let mut i: usize = 0;
    while i < items.len()
        invariant
            i <= items.len(),
            Tree::kernel_from(trees(items@), 0),
            check_items(trees(items@), i as nat, local@, last@) == check_items(
                trees(items@),
                0,
                old(local)@,
                "unit"@,
            ),
        decreases items.len() - i,
    {
        proof {
            Tree::kernel_items(trees(items@), 0, i as int);
            assert(trees(items@)[i as int] == items[i as int]@);
        }
        match ty(&items[i], local) {
            Ok(tag) => {
                last = tag;
            },
            Err(error) => {
                return Err(error);
            },
        }
        i += 1;
    }
    Ok(last)
}

} // verus!
