use vstd::prelude::*;
use crate::check::{check_items, check_tree};
use crate::error::{ErrorView, FaultView};
use crate::eval::{assigns, eval_items, eval_tree, Answer, AskView, Host, Outcome};
use crate::expr::Tree;
use crate::parse::{parse_climb, parse_expression, parse_items, parse_primary, parse_source};
use crate::pipeline::run_source;
use crate::token::{digit_char, failure, number_end, pull, scan_at, Cursor, Kind, Lexeme};
use crate::value::ValueView;

verus! {

/// A text that is one number from its first character to its last.
pub open spec fn numeric_literal(text: Seq<char>) -> bool {
    text.len() > 0 && digit_char(text[0]) && number_end(text, 0, false) == text.len()
}

/// A source that is one numeric literal parses to the block of that literal,
/// and where the host reads the literal as a number, running the source
/// gives that number and leaves the scope as it was.
pub proof fn literal_runs_to_its_number(
    host: Host,
    text: Seq<char>,
    scope: Map<Seq<char>, ValueView>,
    n: u64,
)
    requires
        numeric_literal(text),
        host(AskView::Literal(text)) == Answer::Number(n),
    ensures
        parse_source(Cursor { rest: text, index: 0 }) == Ok::<Tree, ErrorView>(
            Tree::Block(seq![Tree::Number(text)]),
        ),
        run_source(host, text, scope) == (Outcome { result: Ok(ValueView::Number(n)), scope }),
{
    let c = Cursor { rest: text, index: 0 };
    let len = text.len() as int;
    let token = Lexeme { text, kind: Kind::Number, span: c.span(len) };
    let end = c.skip(len);
    assert(text.subrange(0, len) =~= text);
    assert(end.rest =~= Seq::<char>::empty());
    assert(pull(c).token == Some(token) && pull(c).cursor == end);
    assert(scan_at(end.rest) is End);
    assert(pull(end).token is None && pull(end).cursor == end);
    assert(failure(end) is None);
    let leaf = Tree::Number(text);
    assert(parse_primary(c).result == Ok::<Tree, ErrorView>(leaf) && parse_primary(c).cursor == end);
    assert(parse_climb(end, leaf, 0).result == Ok::<Tree, ErrorView>(leaf) && parse_climb(
        end,
        leaf,
        0,
    ).cursor == end);
    assert(parse_expression(c, 0) == parse_climb(end, leaf, 0));
    let items = Seq::<Tree>::empty().push(leaf);
    assert(items =~= seq![leaf]);
    assert(parse_items(end, None, items).result == Ok::<Tree, ErrorView>(Tree::Block(items)));
    assert(parse_items(c, None, Seq::empty()) == parse_items(end, None, items));
    let root = Tree::Block(items);
    assert(check_tree(root, Map::empty()).result == Ok::<Seq<char>, ErrorView>("number"@)) by {
        reveal_with_fuel(check_tree, 4);
    }
    assert(eval_tree(host, root, scope).result == Ok::<ValueView, ErrorView>(ValueView::Number(n)))
        by {
        reveal_with_fuel(eval_tree, 4);
    }
}

/// An assignment gives the value of its right side and binds the identifier
/// to it in the scope that the right side left. The identifier then stands
/// for that value. Where the right side fails, so does the assignment, and
/// nothing is bound.
pub proof fn assignment_binds(
    host: Host,
    name: Seq<char>,
    rhs: Tree,
    scope: Map<Seq<char>, ValueView>,
)
    ensures
        ({
            let assignment = Tree::Binary {
                op: "="@,
                lhs: Box::new(Tree::Identifier(name)),
                rhs: Box::new(rhs),
            };
            let right = eval_tree(host, rhs, scope);
            let done = eval_tree(host, assignment, scope);
            match right.result {
                Ok(value) => {
                    &&& done.result == Ok::<ValueView, ErrorView>(value)
                    &&& done.scope == right.scope.insert(name, value)
                    &&& eval_tree(host, Tree::Identifier(name), done.scope) == (Outcome {
                        result: Ok(value),
                        scope: done.scope,
                    })
                },
                Err(_) => done == right,
            }
        }),
{
}

/// Whatever a block binds is gone when the block ends: it leaves the scope
/// exactly as it found it, whether it succeeds or fails.
pub proof fn block_leaves_scope(host: Host, items: Seq<Tree>, scope: Map<Seq<char>, ValueView>)
    ensures
        eval_tree(host, Tree::Block(items), scope).scope == scope,
        check_tree(Tree::Block(items), Map::empty()).env == Map::<
            Seq<char>,
            Seq<char>,
        >::empty(),
{
}

/// An identifier that is bound only inside a block is unbound after it.
pub proof fn binding_in_block_is_unbound_after(
    host: Host,
    name: Seq<char>,
    rhs: Tree,
    scope: Map<Seq<char>, ValueView>,
)
    requires
        !scope.contains_key(name),
    ensures
        ({
            let assignment = Tree::Binary {
                op: "="@,
                lhs: Box::new(Tree::Identifier(name)),
                rhs: Box::new(rhs),
            };
            let after = eval_tree(host, Tree::Block(seq![assignment]), scope).scope;
            eval_tree(host, Tree::Identifier(name), after).result == Err::<ValueView, ErrorView>(
                ErrorView::of(FaultView::Unbound),
            )
        }),
{
}

/// Nothing is evaluated that the parser or the checker refuses: the error is
/// theirs and the scope stays as it was. What the parser accepts has passed
/// the checker.
pub proof fn refused_source_is_not_evaluated(
    host: Host,
    source: Seq<char>,
    scope: Map<Seq<char>, ValueView>,
)
    ensures
        match parse_source(Cursor { rest: source, index: 0 }) {
            Ok(tree) => check_tree(tree, Map::empty()).result is Ok && run_source(
                host,
                source,
                scope,
            ) == eval_tree(host, tree, scope),
            Err(error) => run_source(host, source, scope) == (Outcome {
                result: Err(error),
                scope,
            }),
        },
{
}

/// Two sides with different tags are refused, whatever the operator between
/// them, unless it is an assignment.
pub proof fn different_tags_are_refused(
    op: Seq<char>,
    lhs: Tree,
    rhs: Tree,
    env: Map<Seq<char>, Seq<char>>,
)
    requires
        !assigns(op, lhs),
    ensures
        ({
            let left = check_tree(lhs, env);
            let right = check_tree(rhs, left.env);
            let whole = check_tree(
                Tree::Binary { op, lhs: Box::new(lhs), rhs: Box::new(rhs) },
                env,
            );
            match (left.result, right.result) {
                (Ok(expected), Ok(found)) => whole.result == (if expected == found {
                    Ok::<Seq<char>, ErrorView>(expected)
                } else {
                    Err(ErrorView::of(FaultView::Mismatch { expected, found }))
                }),
                (Ok(_), Err(error)) => whole.result == Err::<Seq<char>, ErrorView>(error),
                (Err(error), _) => whole.result == Err::<Seq<char>, ErrorView>(error),
            }
        }),
{
}

/// No operator skips its right side: where the left side of an operator
/// other than an assignment has a value, the right side is evaluated in the
/// scope that the left side left, and what it binds there stays bound,
/// whatever the operator and whatever the value of the left side.
pub proof fn right_side_is_always_evaluated(
    host: Host,
    op: Seq<char>,
    lhs: Tree,
    rhs: Tree,
    scope: Map<Seq<char>, ValueView>,
)
    requires
        !assigns(op, lhs),
        eval_tree(host, lhs, scope).result is Ok,
    ensures
        ({
            let left = eval_tree(host, lhs, scope);
            let right = eval_tree(host, rhs, left.scope);
            let whole = eval_tree(
                host,
                Tree::Binary { op, lhs: Box::new(lhs), rhs: Box::new(rhs) },
                scope,
            );
            &&& whole.scope == right.scope
            &&& right.result is Err ==> whole.result == right.result
        }),
{
}

/// `false and` does not keep an assignment on its right from happening.
pub proof fn false_and_assignment_binds(
    host: Host,
    name: Seq<char>,
    value: bool,
    scope: Map<Seq<char>, ValueView>,
)
    ensures
        ({
            let assignment = Tree::Binary {
                op: "="@,
                lhs: Box::new(Tree::Identifier(name)),
                rhs: Box::new(Tree::Bool(value)),
            };
            let both = Tree::Binary {
                op: "and"@,
                lhs: Box::new(Tree::Bool(false)),
                rhs: Box::new(assignment),
            };
            eval_tree(host, both, scope) == (Outcome {
                result: Ok(ValueView::Bool(false)),
                scope: scope.insert(name, ValueView::Bool(value)),
            })
        }),
{
    reveal_strlit("=");
    reveal_strlit("and");
    reveal_strlit("==");
    reveal_strlit("!=");
    assert("and"@.len() == 3);
    assert("="@.len() == 1);
    assert("=="@.len() == 2);
    assert("!="@.len() == 2);
    reveal_with_fuel(eval_tree, 3);
}

/// A block without items has the value unit and the tag `unit`.
pub proof fn empty_block_is_unit(host: Host, scope: Map<Seq<char>, ValueView>)
    ensures
        eval_tree(host, Tree::Block(Seq::empty()), scope) == (Outcome {
            result: Ok(ValueView::Unit),
            scope,
        }),
        check_tree(Tree::Block(Seq::empty()), Map::empty()).result == Ok::<Seq<char>, ErrorView>(
            "unit"@,
        ),
{
    reveal_with_fuel(eval_tree, 2);
    reveal_with_fuel(check_tree, 2);
}

} // verus!
