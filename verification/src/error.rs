use vstd::prelude::*;
use vstd::string::*;
use crate::span::Span;
use crate::text::{escaped, numeral, push_escaped, push_numeral};
use crate::value::ValueKind;

verus! {

/// What went wrong.
#[derive(Debug, Clone, PartialEq)]
pub enum Fault {
    /// The source holds a character that starts no token.
    Unhandled(char),
    /// A text literal is opened and never closed.
    Unterminated,
    /// The input ended where a token was required.
    UnexpectedEnd,
    /// An operator stands where an operand is expected, and it is no prefix operator.
    NotUnary(String),
    /// An operator stands between operands, and it is no infix operator.
    NotInfix(String),
    /// A keyword stands where no expression can begin with it.
    UnexpectedKeyword(String),
    /// A specific token was required and another one was found.
    Expected { wanted: String, found: String },
    /// An identifier is used that the scope does not bind.
    Unbound,
    /// The two sides of an operator have different types.
    Mismatch { expected: String, found: String },
    /// A prefix operator is not defined on the sort of its operand.
    Unary { op: String, operand: ValueKind },
    /// An infix operator is not defined on the sorts of its operands.
    Binary { op: String, left: ValueKind, right: ValueKind },
    /// The host does not read the literal as a number.
    Literal(String),
    /// The host answered a request with the wrong sort of answer.
    Unanswered,
}

/// The stage of the pipeline that a fault belongs to.
#[derive(Debug, Clone, Copy, PartialEq, Eq, Structural)]
pub enum Category {
    Lex,
    Parse,
    Semantic,
}

/// The mathematical content of a [`Fault`].
pub ghost enum FaultView {
    Unhandled(char),
    Unterminated,
    UnexpectedEnd,
    NotUnary(Seq<char>),
    NotInfix(Seq<char>),
    UnexpectedKeyword(Seq<char>),
    Expected { wanted: Seq<char>, found: Seq<char> },
    Unbound,
    Mismatch { expected: Seq<char>, found: Seq<char> },
    Unary { op: Seq<char>, operand: ValueKind },
    Binary { op: Seq<char>, left: ValueKind, right: ValueKind },
    Literal(Seq<char>),
    Unanswered,
}

/// `s` between two double quotes.
pub open spec fn quoted(s: Seq<char>) -> Seq<char> {
    seq!['"'] + s + seq!['"']
}

impl FaultView {
    pub open spec fn category(self) -> Category {
        match self {
            FaultView::Unhandled(_) | FaultView::Unterminated => Category::Lex,
            FaultView::UnexpectedEnd
            | FaultView::NotUnary(_)
            | FaultView::NotInfix(_)
            | FaultView::UnexpectedKeyword(_)
            | FaultView::Expected { .. } => Category::Parse,
            _ => Category::Semantic,
        }
    }

    /// The message before line feeds are escaped.
    pub open spec fn wording(self) -> Seq<char> {
        match self {
            FaultView::Unhandled(c) => "unhandled token "@ + quoted(seq![c]),
            FaultView::Unterminated => "unterminated text"@,
            FaultView::UnexpectedEnd => "unexpected eof"@,
            FaultView::NotUnary(op) => quoted(op) + " is not a unary operator"@,
            FaultView::NotInfix(op) => quoted(op) + " is not an infix operator"@,
            FaultView::UnexpectedKeyword(word) => "unexpected keyword "@ + quoted(word),
            FaultView::Expected { wanted, found } => "expected "@ + quoted(wanted) + ", got "@
                + quoted(found),
            FaultView::Unbound => "unbound identifier"@,
            FaultView::Mismatch { expected, found } => "expected "@ + expected + ", found "@
                + found,
            FaultView::Unary { op, operand } => "cannot apply unary "@ + op + " to "@
                + operand.label(),
            FaultView::Binary { op, left, right } => "cannot apply binary "@ + op + " to "@
                + left.label() + " and "@ + right.label(),
            FaultView::Literal(text) => "invalid number "@ + quoted(text),
            FaultView::Unanswered => "the host gave no usable answer"@,
        }
    }

    /// The message: the wording on a single line.
    pub open spec fn message(self) -> Seq<char> {
        escaped(self.wording())
    }
}

impl View for Fault {
    type V = FaultView;

    open spec fn view(&self) -> FaultView {
        match self {
            Fault::Unhandled(c) => FaultView::Unhandled(*c),
            Fault::Unterminated => FaultView::Unterminated,
            Fault::UnexpectedEnd => FaultView::UnexpectedEnd,
            Fault::NotUnary(op) => FaultView::NotUnary(op@),
            Fault::NotInfix(op) => FaultView::NotInfix(op@),
            Fault::UnexpectedKeyword(word) => FaultView::UnexpectedKeyword(word@),
            Fault::Expected { wanted, found } => FaultView::Expected {
                wanted: wanted@,
                found: found@,
            },
            Fault::Unbound => FaultView::Unbound,
            Fault::Mismatch { expected, found } => FaultView::Mismatch {
                expected: expected@,
                found: found@,
            },
            Fault::Unary { op, operand } => FaultView::Unary { op: op@, operand: *operand },
            Fault::Binary { op, left, right } => FaultView::Binary {
                op: op@,
                left: *left,
                right: *right,
            },
            Fault::Literal(text) => FaultView::Literal(text@),
            Fault::Unanswered => FaultView::Unanswered,
        }
    }
}

fn push_quoted(out: &mut String, s: &str)
    ensures
        final(out)@ == old(out)@ + quoted(s@),
{
    out.push('"');
    out.append(s);
    out.push('"');
    proof {
        assert(final(out)@ =~= old(out)@ + quoted(s@));
    }
}

impl Fault {
    /// The stage of the pipeline that this fault belongs to.
    pub fn category(&self) -> (category: Category)
        ensures
            category == self@.category(),
    {
        match self {
            Fault::Unhandled(_) | Fault::Unterminated => Category::Lex,
            Fault::UnexpectedEnd
            | Fault::NotUnary(_)
            | Fault::NotInfix(_)
            | Fault::UnexpectedKeyword(_)
            | Fault::Expected { .. } => Category::Parse,
            _ => Category::Semantic,
        }
    }

    fn wording(&self) -> (text: String)
        ensures
            text@ == self@.wording(),
    {
        let mut out = String::new();
        match self {
            Fault::Unhandled(c) => {
                out.append("unhandled token ");
                out.push('"');
                out.push(*c);
                out.push('"');
                proof {
                    assert(out@ =~= self@.wording());
                }
            },
            Fault::Unterminated => {
                out.append("unterminated text");
                proof {
                    assert(out@ =~= self@.wording());
                }
            },
            Fault::UnexpectedEnd => {
                out.append("unexpected eof");
                proof {
                    assert(out@ =~= self@.wording());
                }
            },
            Fault::NotUnary(op) => {
                push_quoted(&mut out, op.as_str());
                out.append(" is not a unary operator");
                proof {
                    assert(out@ =~= self@.wording());
                }
            },
            Fault::NotInfix(op) => {
                push_quoted(&mut out, op.as_str());
                out.append(" is not an infix operator");
                proof {
                    assert(out@ =~= self@.wording());
                }
            },
            Fault::UnexpectedKeyword(word) => {
                out.append("unexpected keyword ");
                push_quoted(&mut out, word.as_str());
                proof {
                    assert(out@ =~= self@.wording());
                }
            },
            Fault::Expected { wanted, found } => {
                out.append("expected ");
                push_quoted(&mut out, wanted.as_str());
                out.append(", got ");
                push_quoted(&mut out, found.as_str());
                proof {
                    assert(out@ =~= self@.wording());
                }
            },
            Fault::Unbound => {
                out.append("unbound identifier");
                proof {
                    assert(out@ =~= self@.wording());
                }
            },
            Fault::Mismatch { expected, found } => {
                out.append("expected ");
                out.append(expected.as_str());
                out.append(", found ");
                out.append(found.as_str());
                proof {
                    assert(out@ =~= self@.wording());
                }
            },
            Fault::Unary { op, operand } => {
                out.append("cannot apply unary ");
                out.append(op.as_str());
                out.append(" to ");
                out.append(operand.name());
                proof {
                    assert(out@ =~= self@.wording());
                }
            },
            Fault::Binary { op, left, right } => {
                out.append("cannot apply binary ");
                out.append(op.as_str());
                out.append(" to ");
                out.append(left.name());
                out.append(" and ");
                out.append(right.name());
                proof {
                    assert(out@ =~= self@.wording());
                }
            },
            Fault::Literal(text) => {
                out.append("invalid number ");
                push_quoted(&mut out, text.as_str());
                proof {
                    assert(out@ =~= self@.wording());
                }
            },
            Fault::Unanswered => {
                out.append("the host gave no usable answer");
                proof {
                    assert(out@ =~= self@.wording());
                }
            },
        }
        out
    }

    /// The message for this fault, on a single line.
    pub fn message(&self) -> (text: String)
        ensures
            text@ == self@.message(),
            !text@.contains('\n'),
    {
        let wording = self.wording();
        let mut out = String::new();
        push_escaped(&mut out, wording.as_str());
        proof {
            crate::text::escaped_is_one_line(wording@);
            assert(out@ =~= escaped(wording@));
        }
        out
    }
}

/// A fault, with the place in the source where it showed, if that is known.
#[derive(Debug, Clone, PartialEq)]
pub struct Error {
    pub fault: Fault,
    pub span: Option<Span>,
}

/// The mathematical content of an [`Error`].
pub ghost struct ErrorView {
    pub fault: FaultView,
    pub span: Option<Span>,
}

impl ErrorView {
    /// An error without a place.
    pub open spec fn of(fault: FaultView) -> ErrorView {
        ErrorView { fault, span: None }
    }

    /// An error at a place.
    pub open spec fn at(fault: FaultView, span: Span) -> ErrorView {
        ErrorView { fault, span: Some(span) }
    }

    /// What a reader is shown: the message, followed by the offset of the
    /// place where there is one.
    pub open spec fn display(self) -> Seq<char> {
        match self.span {
            Some(span) => self.fault.message() + " at index "@ + numeral(span.start as nat),
            None => self.fault.message(),
        }
    }
}

impl View for Error {
    type V = ErrorView;

    open spec fn view(&self) -> ErrorView {
        ErrorView { fault: self.fault@, span: self.span }
    }
}

impl Error {
    /// An error without a place.
    pub fn new(fault: Fault) -> (error: Error)
        ensures
            error@ == ErrorView::of(fault@),
            error.fault == fault,
    {
        Error { fault, span: None }
    }

    /// The same error, now placed at `span`.
    pub fn span(self, span: Span) -> (error: Error)
        ensures
            error@ == ErrorView::at(self@.fault, span),
            error.fault == self.fault,
            error.span == Some(span),
    {
        let mut error = self;
        error.span = Some(span);
        error
    }

    /// What a reader is shown: the message, followed by `at index` and the
    /// offset of the place where there is one.
    pub fn render(&self) -> (text: String)
        ensures
            text@ == self@.display(),
    {
        let mut out = self.fault.message();
        match self.span {
            Some(span) => {
                out.append(" at index ");
                push_numeral(&mut out, span.start);
                proof {
                    assert(out@ =~= self@.display());
                }
            },
            None => {},
        }
        out
    }
}

} // verus!
