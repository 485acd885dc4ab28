use vstd::prelude::*;
use crate::error::Error;
use crate::expr::Expr;

verus! {

/// The kinds of instruction of the intermediate representation.
#[derive(Debug, Clone, Copy, PartialEq, Eq, Structural)]
pub enum Ir {
    Value,
    Label,
    Loop,
    Cond,
    Call,
    Return,
}

/// A program in the typed intermediate representation.
#[derive(Debug)]
pub struct Tir {
    pub irs: Vec<Ir>,
}

/// Lowers a checked tree. No form has a lowering yet, so the program that
/// comes out holds no instruction.
pub fn lower(ast: Expr) -> (result: Result<Tir, Error>)
    ensures
        result matches Ok(tir) && tir.irs@.len() == 0,
{
    Ok(Tir { irs: Vec::new() })
}

} // verus!
