use minilang::error::{Category, Fault};
use minilang::span::Span;
use minilang::token::{char_at, scan, tokens, Kind, Tokens};

fn all<'a>(mut lexer: Tokens<'a>) -> Vec<(Kind, &'a str, usize, usize)> {
    let mut out = Vec::new();
    while let Some(token) = lexer.next() {
        out.push((token.kind, token.text, token.span.start, token.span.len));
    }
    out
}

#[test]
fn tokens_of_an_expression() {
    assert_eq!(
        all(tokens("x1 = 12.5+y")),
        vec![
            (Kind::Identifier, "x1", 0, 2),
            (Kind::Operator, "=", 3, 1),
            (Kind::Number, "12.5", 5, 4),
            (Kind::Operator, "+", 9, 1),
            (Kind::Identifier, "y", 10, 1),
        ]
    );
}

#[test]
fn operator_run_is_one_token() {
    assert_eq!(
        all(tokens("a>=b==c")),
        vec![
            (Kind::Identifier, "a", 0, 1),
            (Kind::Operator, ">=", 1, 2),
            (Kind::Identifier, "b", 3, 1),
            (Kind::Operator, "==", 4, 2),
            (Kind::Identifier, "c", 6, 1),
        ]
    );
}

#[test]
fn grouping_run_is_one_token() {
    assert_eq!(
        all(tokens("((1)]")),
        vec![(Kind::Grouping, "((", 0, 2), (Kind::Number, "1", 2, 1), (Kind::Grouping, ")]", 3, 2)]
    );
}

#[test]
fn second_dot_ends_a_number() {
    assert_eq!(
        all(tokens("1_0.5.25")),
        vec![(Kind::Number, "1_0.5", 0, 5), (Kind::Operator, ".", 5, 1), (Kind::Number, "25", 6, 2)]
    );
}

#[test]
fn words_are_classified_by_their_text() {
    assert_eq!(
        all(tokens("true false and or not var do end if then else match _x")),
        vec![
            (Kind::Bool, "true", 0, 4),
            (Kind::Bool, "false", 5, 5),
            (Kind::Operator, "and", 11, 3),
            (Kind::Operator, "or", 15, 2),
            (Kind::Operator, "not", 18, 3),
            (Kind::Keyword, "var", 22, 3),
            (Kind::Keyword, "do", 26, 2),
            (Kind::Keyword, "end", 29, 3),
            (Kind::Keyword, "if", 33, 2),
            (Kind::Keyword, "then", 36, 4),
            (Kind::Keyword, "else", 41, 4),
            (Kind::Identifier, "match", 46, 5),
            (Kind::Identifier, "_x", 52, 2),
        ]
    );
}

#[test]
fn text_token_holds_what_is_between_the_quotes() {
    assert_eq!(
        all(tokens("\"a b\" \"\"")),
        vec![(Kind::Text, "a b", 0, 5), (Kind::Text, "", 6, 2)]
    );
}

#[test]
fn comments_blanks_and_line_feeds_are_skipped() {
    assert_eq!(
        all(tokens("  # one\n\t2 # two")),
        vec![(Kind::Number, "2", 9, 1)]
    );
    assert_eq!(all(tokens("")), vec![]);
    assert_eq!(all(tokens(" \n ")), vec![]);
}

#[test]
fn offsets_count_characters() {
    assert_eq!(
        all(tokens("é = \"ü\" ñ")),
        vec![
            (Kind::Identifier, "é", 0, 1),
            (Kind::Operator, "=", 2, 1),
            (Kind::Text, "ü", 4, 3),
            (Kind::Identifier, "ñ", 8, 1),
        ]
    );
}

#[test]
fn unhandled_character_ends_the_sequence() {
    let mut lexer = tokens("1 $ 2");
    assert_eq!(lexer.next().map(|t| t.text), Some("1"));
    assert!(lexer.failure().is_none());
    assert!(lexer.next().is_none());
    assert!(lexer.next().is_none());
    let error = lexer.failure().unwrap();
    assert_eq!(error.fault, Fault::Unhandled('$'));
    assert_eq!(error.fault.category(), Category::Lex);
    assert_eq!(error.span, Some(Span { start: 2, len: 1 }));
    assert_eq!(error.render(), "unhandled token \"$\" at index 2");
}

#[test]
fn unterminated_text_ends_the_sequence() {
    let mut lexer = tokens("x \"abc");
    assert_eq!(lexer.next().map(|t| t.text), Some("x"));
    assert!(lexer.next().is_none());
    let error = lexer.failure().unwrap();
    assert_eq!(error.fault, Fault::Unterminated);
    assert_eq!(error.span, Some(Span { start: 2, len: 4 }));
}

#[test]
fn clean_end_is_no_failure() {
    let mut lexer = tokens("x ");
    assert!(lexer.next().is_some());
    assert!(lexer.next().is_none());
    assert!(lexer.failure().is_none());
}

#[test]
fn peek_leaves_the_token_in_place() {
    let mut lexer = tokens(" a b");
    assert_eq!(lexer.peek().map(|t| t.text), Some("a"));
    assert_eq!(lexer.peek().map(|t| t.text), Some("a"));
    assert_eq!(lexer.next().map(|t| t.text), Some("a"));
    assert_eq!(lexer.peek().map(|t| t.text), Some("b"));
}

#[test]
fn scan_takes_the_longest_prefix() {
    assert_eq!(scan("aaab", |c| c == 'a'), "aaa");
    assert_eq!(scan("aaa", |c| c == 'a'), "aaa");
    assert_eq!(scan("baa", |c| c == 'a'), "");
    assert_eq!(scan("ééx", |c| c == 'é'), "éé");
}

#[test]
fn char_at_counts_characters() {
    assert_eq!(char_at("héllo", 0), Some('h'));
    assert_eq!(char_at("héllo", 2), Some('l'));
    assert_eq!(char_at("héllo", 5), None);
    assert_eq!(char_at("", 0), None);
}
