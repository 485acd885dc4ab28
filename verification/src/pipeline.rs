use vstd::prelude::*;
use crate::error::Error;
use crate::eval::{attentive, ended, eval, eval_tree, model, Answer, Ask, Host, Outcome, Table};
use crate::parse::{parse, parse_source};
use crate::token::{tokens, Cursor};
use crate::value::{Value, ValueView};

verus! {

/// What running a source text gives: it is parsed and checked, and only a
/// source that passes both is evaluated, in `scope`.
pub open spec fn run_source(host: Host, source: Seq<char>, scope: Map<Seq<char>, ValueView>) -> Outcome {
    match parse_source(Cursor { rest: source, index: 0 }) {
        Ok(tree) => eval_tree(host, tree, scope),
        Err(error) => Outcome { result: Err(error), scope },
    }
}

/// Runs a source text: lexes, parses, checks and evaluates it.
///
/// Where lexing, parsing or checking fails, nothing is evaluated and the
/// scope stays as it is.
pub fn run<F: Fn(Ask) -> Answer>(source: &str, table: &mut Table, host: &F) -> (result: Result<
    Value,
    Error,
>)
    requires
        attentive(*host),
    ensures
        (Outcome { result: ended(result), scope: final(table)@ }) == run_source(
            model(*host),
            source@,
            old(table)@,
        ),
{
    let root = parse(tokens(source))?;
    eval(&root, table, host)
}

} // verus!
