use vstd::prelude::*;
use vstd::string::*;
use vstd::std_specs::iter::IteratorSpec;
use crate::error::{Error, ErrorView, Fault, FaultView};
use crate::span::Span;
use crate::text::same;

verus! {

broadcast use vstd::string::group_string_axioms;

/// The classes of token. The first three are skipped by the lexer and never
/// reach the parser.
#[derive(Debug, Clone, Copy, PartialEq, Eq, Structural)]
pub enum Kind {
    Space,
    Break,
    Comment,
    Operator,
    Grouping,
    Number,
    Text,
    Bool,
    Identifier,
    Keyword,
}

impl Kind {
    /// Whether tokens of this class are skipped.
    pub open spec fn trivia(self) -> bool {
        self == Kind::Space || self == Kind::Break || self == Kind::Comment
    }

    /// Whether tokens of this class are skipped.
    pub fn is_trivia(self) -> (trivia: bool)
        ensures
            trivia == self.trivia(),
    {
        match self {
            Kind::Space | Kind::Break | Kind::Comment => true,
            _ => false,
        }
    }
}

/// A token: a piece of the source, its class, and where it stands.
///
/// The text of a `Text` token is what stands between the quotes; its span
/// covers the quotes too.
#[derive(Debug, Clone, Copy)]
pub struct Token<'a> {
    pub text: &'a str,
    pub kind: Kind,
    pub span: Span,
}

/// The mathematical content of a [`Token`].
pub ghost struct Lexeme {
    pub text: Seq<char>,
    pub kind: Kind,
    pub span: Span,
}

impl<'a> View for Token<'a> {
    type V = Lexeme;

    open spec fn view(&self) -> Lexeme {
        Lexeme { text: self.text@, kind: self.kind, span: self.span }
    }
}

/// What `char::is_whitespace` of the standard library says of a character:
/// whether it has the Unicode property White_Space.
pub uninterp spec fn white_space(c: char) -> bool;

/// What `unicode_ident::is_xid_start` says of a character: whether it has the
/// Unicode property XID_Start.
pub uninterp spec fn xid_start(c: char) -> bool;

/// What `unicode_ident::is_xid_continue` says of a character: whether it has
/// the Unicode property XID_Continue.
pub uninterp spec fn xid_continue(c: char) -> bool;

/// `char::is_whitespace` of the standard library looks the character up in a
/// fixed table, so its answer depends on the character alone.
pub assume_specification[ char::is_whitespace ](c: char) -> (b: bool)
    ensures
        b == white_space(c),
;

/// `unicode_ident::is_xid_start` looks the character up in a fixed table, so
/// its answer depends on the character alone.
pub assume_specification[ unicode_ident::is_xid_start ](ch: char) -> (b: bool)
    ensures
        b == xid_start(ch),
;

/// `unicode_ident::is_xid_continue` looks the character up in a fixed table,
/// so its answer depends on the character alone.
pub assume_specification[ unicode_ident::is_xid_continue ](ch: char) -> (b: bool)
    ensures
        b == xid_continue(ch),
;

/// The characters that operators are made of.
pub open spec fn operator_char(c: char) -> bool {
    c == '+' || c == '-' || c == '*' || c == '/' || c == '%' || c == '^' || c == '<' || c == '>'
        || c == '=' || c == '.' || c == ':' || c == '!'
}

/// The characters that group.
pub open spec fn grouping_char(c: char) -> bool {
    c == '(' || c == ')' || c == '[' || c == ']'
}

/// The ten decimal digits.
pub open spec fn digit_char(c: char) -> bool {
    '0' <= c <= '9'
}

/// A character inside a comment: anything but a line feed.
pub open spec fn comment_char(c: char) -> bool {
    c != '\n'
}

/// A character inside a text literal: anything but a double quote.
pub open spec fn text_char(c: char) -> bool {
    c != '"'
}

/// A character of a run of blanks: white space other than a line feed.
pub open spec fn blank_char(c: char) -> bool {
    white_space(c) && c != '\n'
}

/// A character that can begin a word.
pub open spec fn word_start(c: char) -> bool {
    c == '_' || xid_start(c)
}

/// Where the longest run of characters of one class that begins at `from`
/// ends: the first position at or after `from` whose character is not in the
/// class, or the length of `s`.
pub open spec fn run_end(s: Seq<char>, from: int, class: spec_fn(char) -> bool) -> int
    decreases s.len() - from,
{
    if 0 <= from < s.len() && class(s[from]) {
        run_end(s, from + 1, class)
    } else {
        from
    }
}

/// Where the number that begins at `from` ends. Digits and underscores
/// belong to it, and so does one dot: `dotted` says that it was seen already,
/// and the next dot ends the number.
pub open spec fn number_end(s: Seq<char>, from: int, dotted: bool) -> int
    decreases s.len() - from,
{
    if 0 <= from < s.len() && (digit_char(s[from]) || s[from] == '_') {
        number_end(s, from + 1, dotted)
    } else if 0 <= from < s.len() && s[from] == '.' && !dotted {
        number_end(s, from + 1, true)
    } else {
        from
    }
}

/// The words that are reserved.
pub open spec fn keyword(text: Seq<char>) -> bool {
    text == "var"@ || text == "do"@ || text == "end"@ || text == "if"@ || text == "then"@
        || text == "else"@
}

/// The class of a word, which its text decides.
pub open spec fn word_kind(text: Seq<char>) -> Kind {
    if text == "true"@ || text == "false"@ {
        Kind::Bool
    } else if text == "and"@ || text == "or"@ || text == "not"@ {
        Kind::Operator
    } else if keyword(text) {
        Kind::Keyword
    } else {
        Kind::Identifier
    }
}

/// What stands at the front of a piece of source.
pub ghost enum Scan {
    /// Nothing: the source is used up.
    End,
    /// No token: the next `len` characters cannot be read.
    Stuck { fault: FaultView, len: int },
    /// A token of class `kind` that takes up the next `len` characters and
    /// whose text reaches from position `from` to position `to`.
    Piece { kind: Kind, from: int, to: int, len: int },
}

/// A token that takes up its whole text.
pub open spec fn whole(kind: Kind, to: int) -> Scan {
    Scan::Piece { kind, from: 0, to, len: to }
}

/// What stands at the front of `s`, by its first character: a comment from
/// `#` to the end of the line; a line feed; a run of operator characters; a
/// run of grouping characters; a number; a text literal from one double quote
/// to the next; a run of blanks; a word. Anything else cannot be read.
pub open spec fn scan_at(s: Seq<char>) -> Scan {
    if s.len() == 0 {
        Scan::End
    } else if s[0] == '#' {
        whole(Kind::Comment, run_end(s, 0, |c: char| comment_char(c)))
    } else if s[0] == '\n' {
        whole(Kind::Break, 1)
    } else if operator_char(s[0]) {
        whole(Kind::Operator, run_end(s, 0, |c: char| operator_char(c)))
    } else if grouping_char(s[0]) {
        whole(Kind::Grouping, run_end(s, 0, |c: char| grouping_char(c)))
    } else if digit_char(s[0]) {
        whole(Kind::Number, number_end(s, 0, false))
    } else if s[0] == '"' {
        let close = run_end(s, 1, |c: char| text_char(c));
        if close < s.len() {
            Scan::Piece { kind: Kind::Text, from: 1, to: close, len: close + 1 }
        } else {
            Scan::Stuck { fault: FaultView::Unterminated, len: s.len() as int }
        }
    } else if white_space(s[0]) {
        whole(Kind::Space, run_end(s, 0, |c: char| blank_char(c)))
    } else if word_start(s[0]) {
        let to = run_end(s, 1, |c: char| xid_continue(c));
        whole(word_kind(s.take(to)), to)
    } else {
        Scan::Stuck { fault: FaultView::Unhandled(s[0]), len: 1 }
    }
}

/// A run ends at or after the place where it begins, and inside the source.
pub proof fn run_end_bounds(s: Seq<char>, from: int, class: spec_fn(char) -> bool)
    requires
        0 <= from <= s.len(),
    ensures
        from <= run_end(s, from, class) <= s.len(),
    decreases s.len() - from,
{
    if from < s.len() && class(s[from]) {
        run_end_bounds(s, from + 1, class);
    }
}

/// A number ends at or after the place where it begins, and inside the source.
pub proof fn number_end_bounds(s: Seq<char>, from: int, dotted: bool)
    requires
        0 <= from <= s.len(),
    ensures
        from <= number_end(s, from, dotted) <= s.len(),
    decreases s.len() - from,
{
    if from < s.len() && (digit_char(s[from]) || s[from] == '_') {
        number_end_bounds(s, from + 1, dotted);
    } else if from < s.len() && s[from] == '.' && !dotted {
        number_end_bounds(s, from + 1, true);
    }
}

/// A run is known by its two ends: every character before `to` is in the
/// class, and the one at `to`, if there is one, is not.
pub proof fn run_end_found(s: Seq<char>, from: int, class: spec_fn(char) -> bool, to: int)
    requires
        0 <= from <= to <= s.len(),
        forall|i: int| from <= i < to ==> class(#[trigger] s[i]),
        to < s.len() ==> !class(s[to]),
    ensures
        run_end(s, from, class) == to,
    decreases to - from,
{
    if from < to {
        run_end_found(s, from + 1, class, to);
    }
}

/// Every token takes up at least one character, and none reaches past the
/// end of the source.
pub proof fn scan_bounds(s: Seq<char>)
    ensures
        match scan_at(s) {
            Scan::End => s.len() == 0,
            Scan::Stuck { len, .. } => 0 < len <= s.len(),
            Scan::Piece { from, to, len, .. } => 0 <= from <= to <= len <= s.len() && 0 < len,
        },
{
    if s.len() > 0 {
        run_end_bounds(s, 1, |c: char| comment_char(c));
        run_end_bounds(s, 1, |c: char| operator_char(c));
        run_end_bounds(s, 1, |c: char| grouping_char(c));
        run_end_bounds(s, 1, |c: char| blank_char(c));
        run_end_bounds(s, 1, |c: char| text_char(c));
        run_end_bounds(s, 1, |c: char| xid_continue(c));
        number_end_bounds(s, 1, false);
    }
}

/// A place in the source: what is left of it, and how many characters came
/// before.
pub ghost struct Cursor {
    pub rest: Seq<char>,
    pub index: nat,
}

impl Cursor {
    /// The place `n` characters further on.
    pub open spec fn skip(self, n: int) -> Cursor {
        Cursor { rest: self.rest.skip(n), index: (self.index + n) as nat }
    }

    /// The region of `len` characters that begins here.
    pub open spec fn span(self, len: int) -> Span {
        Span { start: self.index as usize, len: len as usize }
    }
}

/// What asking for the next token gives: the token, if there is one, and the
/// place after it.
pub ghost struct Pull {
    pub token: Option<Lexeme>,
    pub cursor: Cursor,
}

/// The next token at or after a place, and the place after it.
///
/// Blanks, line feeds and comments are passed over. Where the source ends or
/// cannot be read there is no token, and the place is where that showed.
pub open spec fn pull(c: Cursor) -> Pull
    decreases c.rest.len(),
    via pull_decreases
{
    match scan_at(c.rest) {
        Scan::Piece { kind, from, to, len } => {
            if kind.trivia() {
                pull(c.skip(len))
            } else {
                Pull {
                    token: Some(Lexeme { text: c.rest.subrange(from, to), kind, span: c.span(len) }),
                    cursor: c.skip(len),
                }
            }
        },
        _ => Pull { token: None, cursor: c },
    }
}

#[via_fn]
proof fn pull_decreases(c: Cursor) {
    scan_bounds(c.rest);
}

/// The error at a place where the source cannot be read, if it is such a
/// place.
pub open spec fn failure(c: Cursor) -> Option<ErrorView> {
    match scan_at(c.rest) {
        Scan::Stuck { fault, len } => Some(ErrorView::at(fault, c.span(len))),
        _ => None,
    }
}

/// Asking for a token never moves backwards, and a token is at least one
/// character long. Where there is no token, the source has ended or cannot
/// be read at the place reached, and asking again changes nothing.
pub proof fn pull_advances(c: Cursor)
    ensures
        pull(c).cursor.rest.len() <= c.rest.len(),
        pull(c).cursor.index + pull(c).cursor.rest.len() == c.index + c.rest.len(),
        pull(c).token is Some ==> pull(c).cursor.rest.len() < c.rest.len(),
        pull(c).token is Some ==> !pull(c).token->0.kind.trivia(),
        pull(c).token is None ==> (scan_at(pull(c).cursor.rest) is End || scan_at(
            pull(c).cursor.rest,
        ) is Stuck),
        pull(c).token is None ==> pull(pull(c).cursor) == pull(c),
    decreases c.rest.len(),
{
    scan_bounds(c.rest);
    match scan_at(c.rest) {
        Scan::Piece { kind, from, to, len } => {
            if kind.trivia() {
                pull_advances(c.skip(len));
            }
        },
        _ => {},
    }
}

/// The character at position `i` of `s`, if `s` is that long.
pub fn char_at(s: &str, i: usize) -> (found: Option<char>)
    ensures
        found == (if i < s@.len() {
            Some(s@[i as int])
        } else {
            None::<char>
        }),
{
    let mut chars = s.chars();
    let mut k: usize = 0;
    loop
        invariant
            k <= i,
            k <= s@.len(),
            chars.remaining() == s@.skip(k as int),
        decreases s@.len() - k,
    {
        match chars.next() {
            None => {
                return None;
            },
            Some(c) => {
                if k == i {
                    return Some(c);
                }
                k += 1;
            },
        }
    }
}

/// The longest prefix of `s` whose characters all pass `valid`.
pub fn scan<'a, F: Fn(char) -> bool>(s: &'a str, valid: F) -> (run: &'a str)
    requires
        s@.len() <= usize::MAX,
        forall|c: char| #[trigger] valid.requires((c,)),
    ensures
        run@.len() <= s@.len(),
        run@ == s@.take(run@.len() as int),
        forall|i: int| 0 <= i < run@.len() ==> valid.ensures((#[trigger] s@[i],), true),
        run@.len() < s@.len() ==> valid.ensures((s@[run@.len() as int],), false),
{
    let mut chars = s.chars();
    let mut len: usize = 0;
    loop
        invariant_except_break
            chars.remaining() == s@.skip(len as int),
        invariant
            s@.len() <= usize::MAX,
            len <= s@.len(),
            forall|c: char| #[trigger] valid.requires((c,)),
            forall|i: int| 0 <= i < len ==> valid.ensures((#[trigger] s@[i],), true),
        ensures
            len <= s@.len(),
            forall|i: int| 0 <= i < len ==> valid.ensures((#[trigger] s@[i],), true),
            len < s@.len() ==> valid.ensures((s@[len as int],), false),
        decreases s@.len() - len,
    {
        match chars.next() {
            None => {
                break ;
            },
            Some(c) => {
                if !valid(c) {
                    break ;
                }
                len += 1;
            },
        }
    }
    s.substring_char(0, len)
}

/// The number at the front of `s`: digits and underscores, with at most one
/// dot among them.
fn number_run<'a>(s: &'a str) -> (run: &'a str)
    requires
        s@.len() <= usize::MAX,
    ensures
        run@ == s@.take(number_end(s@, 0, false)),
        run@.len() == number_end(s@, 0, false),
{
    let mut chars = s.chars();
    let mut len: usize = 0;
    let mut dotted = false;
    proof {
        number_end_bounds(s@, 0, false);
    }
    loop
        invariant_except_break
            chars.remaining() == s@.skip(len as int),
        invariant
            s@.len() <= usize::MAX,
            len <= s@.len(),
            number_end(s@, len as int, dotted) == number_end(s@, 0, false),
        ensures
            len == number_end(s@, 0, false),
            len <= s@.len(),
        decreases s@.len() - len,
    {
        match chars.next() {
            None => {
                break ;
            },
            Some(c) => {
                if is_digit_char(c) || c == '_' {
                    len += 1;
                } else if c == '.' && !dotted {
                    dotted = true;
                    len += 1;
                } else {
                    break ;
                }
            },
        }
    }
    s.substring_char(0, len)
}

fn is_operator_char(c: char) -> (b: bool)
    ensures
        b == operator_char(c),
{
    c == '+' || c == '-' || c == '*' || c == '/' || c == '%' || c == '^' || c == '<' || c == '>'
        || c == '=' || c == '.' || c == ':' || c == '!'
}

fn is_grouping_char(c: char) -> (b: bool)
    ensures
        b == grouping_char(c),
{
    c == '(' || c == ')' || c == '[' || c == ']'
}

fn is_digit_char(c: char) -> (b: bool)
    ensures
        b == digit_char(c),
{
    '0' <= c && c <= '9'
}

fn is_keyword(text: &str) -> (b: bool)
    ensures
        b == keyword(text@),
{
    same(text, "var") || same(text, "do") || same(text, "end") || same(text, "if") || same(
        text,
        "then",
    ) || same(text, "else")
}

fn kind_of_word(text: &str) -> (kind: Kind)
    ensures
        kind == word_kind(text@),
{
    if same(text, "true") || same(text, "false") {
        Kind::Bool
    } else if same(text, "and") || same(text, "or") || same(text, "not") {
        Kind::Operator
    } else if is_keyword(text) {
        Kind::Keyword
    } else {
        Kind::Identifier
    }
}

/// What the lexer finds at the front of a piece of source.
enum Lexed<'a> {
    End,
    Stuck(Fault, usize),
    Piece(Kind, &'a str, usize),
}

impl<'a> Lexed<'a> {
    spec fn agrees(self, s: Seq<char>) -> bool {
        match (self, scan_at(s)) {
            (Lexed::End, Scan::End) => true,
            (Lexed::Stuck(fault, n), Scan::Stuck { fault: f, len }) => fault@ == f && n == len,
            (Lexed::Piece(kind, text, n), Scan::Piece { kind: k, from, to, len }) => kind == k
                && text@ == s.subrange(from, to) && n == len,
            _ => false,
        }
    }
}

fn lex<'a>(src: &'a str, left: usize) -> (lexed: Lexed<'a>)
    requires
        left == src@.len(),
    ensures
        lexed.agrees(src@),
{
    let first = match char_at(src, 0) {
        None => {
            return Lexed::End;
        },
        Some(c) => c,
    };
    let ghost s = src@;
    if first == '#' {
        let run = scan(src, |c: char| -> (b: bool) ensures b == comment_char(c) { c != '\n' });
        let len = run.unicode_len();
        proof {
            run_end_found(s, 0, |c: char| comment_char(c), len as int);
            assert(s.take(len as int) =~= s.subrange(0, len as int));
        }
        Lexed::Piece(Kind::Comment, run, len)
    } else if first == '\n' {
        let run = src.substring_char(0, 1);
        Lexed::Piece(Kind::Break, run, 1)
    } else if is_operator_char(first) {
        let run = scan(src, |c: char| -> (b: bool) ensures b == operator_char(c) { is_operator_char(c) });
        let len = run.unicode_len();
        proof {
            run_end_found(s, 0, |c: char| operator_char(c), len as int);
            assert(s.take(len as int) =~= s.subrange(0, len as int));
        }
        Lexed::Piece(Kind::Operator, run, len)
    } else if is_grouping_char(first) {
        let run = scan(src, |c: char| -> (b: bool) ensures b == grouping_char(c) { is_grouping_char(c) });
        let len = run.unicode_len();
        proof {
            run_end_found(s, 0, |c: char| grouping_char(c), len as int);
            assert(s.take(len as int) =~= s.subrange(0, len as int));
        }
        Lexed::Piece(Kind::Grouping, run, len)
    } else if is_digit_char(first) {
        let run = number_run(src);
        let len = run.unicode_len();
        proof {
            assert(s.take(len as int) =~= s.subrange(0, len as int));
        }
        Lexed::Piece(Kind::Number, run, len)
    } else if first == '"' {
        let tail = src.substring_char(1, left);
        let run = scan(tail, |c: char| -> (b: bool) ensures b == text_char(c) { c != '"' });
        let inner = run.unicode_len();
        proof {
            assert forall|i: int| 1 <= i < inner + 1 implies text_char(#[trigger] s[i]) by {
                assert(s[i] == tail@[i - 1]);
            }
            if inner + 1 < s.len() {
                assert(s[inner + 1] == tail@[inner as int]);
            }
            run_end_found(s, 1, |c: char| text_char(c), inner + 1);
            assert(tail@.take(inner as int) =~= s.subrange(1, inner + 1));
        }
        if inner + 1 < left {
            Lexed::Piece(Kind::Text, run, inner + 2)
        } else {
            Lexed::Stuck(Fault::Unterminated, left)
        }
    } else if first.is_whitespace() {
        let run = scan(src, |c: char| -> (b: bool) ensures b == blank_char(c) { c.is_whitespace() && c != '\n' });
        let len = run.unicode_len();
        proof {
            run_end_found(s, 0, |c: char| blank_char(c), len as int);
            assert(s.take(len as int) =~= s.subrange(0, len as int));
        }
        Lexed::Piece(Kind::Space, run, len)
    } else if first == '_' || unicode_ident::is_xid_start(first) {
        let tail = src.substring_char(1, left);
        let run = scan(tail, unicode_ident::is_xid_continue);
        let len = run.unicode_len() + 1;
        proof {
            assert forall|i: int| 1 <= i < len implies xid_continue(#[trigger] s[i]) by {
                assert(s[i] == tail@[i - 1]);
            }
            if len < s.len() {
                assert(s[len as int] == tail@[len - 1]);
            }
            run_end_found(s, 1, |c: char| xid_continue(c), len as int);
        }
        let word = src.substring_char(0, len);
        proof {
            assert(s.take(len as int) =~= s.subrange(0, len as int));
        }
        Lexed::Piece(kind_of_word(word), word, len)
    } else {
        Lexed::Stuck(Fault::Unhandled(first), 1)
    }
}

/// The tokens of a source text, handed out one at a time.
#[derive(Debug, Clone, Copy)]
pub struct Tokens<'a> {
    src: &'a str,
    index: usize,
    left: usize,
}

impl<'a> View for Tokens<'a> {
    type V = Cursor;

    closed spec fn view(&self) -> Cursor {
        Cursor { rest: self.src@, index: self.index as nat }
    }
}

/// The tokens of `src`, from its beginning.
pub fn tokens(src: &str) -> (tokens: Tokens<'_>)
    ensures
        tokens@ == (Cursor { rest: src@, index: 0 }),
{
    Tokens { src, index: 0, left: src.unicode_len() }
}

impl<'a> Tokens<'a> {
    #[verifier::type_invariant]
    spec fn well_formed(self) -> bool {
        self.left == self.src@.len() && self.index + self.left <= usize::MAX
    }

    fn look(&self) -> (found: (Option<Token<'a>>, Tokens<'a>))
        ensures
            pull(self@) == (Pull {
                token: match found.0 {
                    Some(token) => Some(token@),
                    None => None,
                },
                cursor: found.1@,
            }),
    {
        let mut at = *self;
        loop
            invariant
                pull(at@) == pull(self@),
            decreases at@.rest.len(),
        {
            proof {
                use_type_invariant(at);
                scan_bounds(at@.rest);
            }
            match lex(at.src, at.left) {
                Lexed::Piece(kind, text, len) => {
                    let span = Span { start: at.index, len };
                    at =
                    Tokens {
                        src: at.src.substring_char(len, at.left),
                        index: at.index + len,
                        left: at.left - len,
                    };
                    if !kind.is_trivia() {
                        return (Some(Token { text, kind, span }), at);
                    }
                },
                _ => {
                    return (None, at);
                },
            }
        }
    }

    /// The next token, which is then behind the lexer. `None` where the
    /// source has ended or cannot be read; [`Tokens::failure`] tells which.
    pub fn next(&mut self) -> (token: Option<Token<'a>>)
        ensures
            pull(old(self)@) == (Pull {
                token: match token {
                    Some(token) => Some(token@),
                    None => None,
                },
                cursor: final(self)@,
            }),
    {
        let (token, after) = self.look();
        *self = after;
        token
    }

    /// The next token, which stays ahead of the lexer.
    pub fn peek(&self) -> (token: Option<Token<'a>>)
        ensures
            pull(self@).token == match token {
                Some(token) => Some(token@),
                None => None::<Lexeme>,
            },
    {
        self.look().0
    }

    /// The error at this place, if the source cannot be read here.
    pub fn failure(&self) -> (error: Option<Error>)
        ensures
            failure(self@) == match error {
                Some(error) => Some(error@),
                None => None::<ErrorView>,
            },
    {
        proof {
            use_type_invariant(self);
        }
        match lex(self.src, self.left) {
            Lexed::Stuck(fault, len) => Some(
                Error::new(fault).span(Span { start: self.index, len }),
            ),
            _ => None,
        }
    }
}

} // verus!
