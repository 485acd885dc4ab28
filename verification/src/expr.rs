use vstd::prelude::*;

verus! {

/// A node of the syntax tree.
///
/// The parser builds the first seven forms. The others are reserved for
/// language features that have no rules yet.
#[derive(Debug, PartialEq)]
pub enum Expr {
    Bool(bool),
    /// A number, as it is written in the source.
    Number(String),
    Text(String),
    Identifier(String),
    Unary { op: String, expr: Box<Expr> },
    Binary { op: String, lhs: Box<Expr>, rhs: Box<Expr> },
    Block(Vec<Expr>),
    If { cond: Box<Expr>, yes: Box<Expr>, no: Box<Expr> },
    Match { expr: Box<Expr>, arms: Vec<(Expr, Expr)> },
    Loop { body: Box<Expr> },
    While { cond: Box<Expr>, body: Box<Expr> },
    For { id: String, iter: Box<Expr>, body: Box<Expr> },
    Variable(Box<Expr>, Box<Expr>),
    Function {},
    Type {},
    Record {},
    Trait {},
}

/// The mathematical content of an [`Expr`]. Every reserved form is `Reserved`.
pub ghost enum Tree {
    Bool(bool),
    Number(Seq<char>),
    Text(Seq<char>),
    Identifier(Seq<char>),
    Unary { op: Seq<char>, operand: Box<Tree> },
    Binary { op: Seq<char>, lhs: Box<Tree>, rhs: Box<Tree> },
    Block(Seq<Tree>),
    Reserved,
}

impl Tree {
    /// Whether the tree holds only forms that have rules.
    pub open spec fn kernel(self) -> bool
        decreases self, 0nat,
    {
        match self {
            Tree::Unary { operand, .. } => operand.kernel(),
            Tree::Binary { lhs, rhs, .. } => lhs.kernel() && rhs.kernel(),
            Tree::Block(items) => Tree::kernel_from(items, 0),
            Tree::Reserved => false,
            _ => true,
        }
    }

    /// Whether the trees of `items` from position `from` on hold only forms
    /// that have rules.
    pub open spec fn kernel_from(items: Seq<Tree>, from: nat) -> bool
        decreases items, items.len() - from,
    {
        if from >= items.len() {
            true
        } else {
            items[from as int].kernel() && Tree::kernel_from(items, from + 1)
        }
    }

    /// A kernel block holds kernel items only.
    pub proof fn kernel_items(items: Seq<Tree>, from: nat, i: int)
        requires
            Tree::kernel_from(items, from),
            from <= i < items.len(),
        ensures
            items[i].kernel(),
        decreases items.len() - from,
    {
        if from < i {
            Tree::kernel_items(items, from + 1, i);
        }
    }
}

impl Expr {
    /// The tree that this expression stands for.
    pub open spec fn tree(&self) -> Tree
        decreases self, 1nat,
    {
        match self {
            Expr::Bool(b) => Tree::Bool(*b),
            Expr::Number(n) => Tree::Number(n@),
            Expr::Text(t) => Tree::Text(t@),
            Expr::Identifier(id) => Tree::Identifier(id@),
            Expr::Unary { op, expr } => Tree::Unary { op: op@, operand: Box::new(expr.tree()) },
            Expr::Binary { op, lhs, rhs } => Tree::Binary {
                op: op@,
                lhs: Box::new(lhs.tree()),
                rhs: Box::new(rhs.tree()),
            },
            Expr::Block(items) => Tree::Block(trees(items@)),
            _ => Tree::Reserved,
        }
    }

    /// Whether the expression holds only forms that have rules.
    pub fn is_kernel(&self) -> (kernel: bool)
        ensures
            kernel == self@.kernel(),
        decreases self, 1nat,
    {
        match self {
            Expr::Bool(_) | Expr::Number(_) | Expr::Text(_) | Expr::Identifier(_) => true,
            Expr::Unary { expr, .. } => expr.is_kernel(),
            Expr::Binary { lhs, rhs, .. } => lhs.is_kernel() && rhs.is_kernel(),
            Expr::Block(items) => all_kernel(items),
            _ => false,
        }
    }
}

/// The trees of a list of expressions, in order.
pub open spec fn trees(items: Seq<Expr>) -> Seq<Tree>
    decreases items, 0nat,
{
    Seq::new(
        items.len(),
        |i: int|
            if 0 <= i < items.len() {
                items[i].tree()
            } else {
                Tree::Reserved
            },
    )
}

fn all_kernel(items: &Vec<Expr>) -> (kernel: bool)
    ensures
        kernel == Tree::kernel_from(trees(items@), 0),
    decreases items, 0nat,
{
    let mut i: usize = items.len();
    while i > 0
        invariant
            i <= items.len(),
            Tree::kernel_from(trees(items@), i as nat),
        decreases i,
    {
        i -= 1;
        if !items[i].is_kernel() {
            proof {
                assert(trees(items@)[i as int] == items[i as int].tree());
                not_kernel(trees(items@), 0, i as int);
            }
            return false;
        }
        assert(trees(items@)[i as int] == items[i as int].tree());
    }
    true
}

proof fn not_kernel(items: Seq<Tree>, from: nat, i: int)
    requires
        from <= i < items.len(),
        !items[i].kernel(),
    ensures
        !Tree::kernel_from(items, from),
    decreases items.len() - from,
{
    if from < i {
        not_kernel(items, from + 1, i);
    }
}

impl View for Expr {
    type V = Tree;

    open spec fn view(&self) -> Tree {
        self.tree()
    }
}

} // verus!
