use secsp::syntax::char_lexer::{DelimiterType, Token, TokenAndSpan, Tokenizer};
use secsp::syntax::codemap::Span;

fn collect(input: &str) -> Vec<TokenAndSpan<'_>> {
    let mut tokenizer = Tokenizer::new(input);
    let mut tokens = vec![];
    while let Some(t) = tokenizer.next() {
        tokens.push(t);
    }
    tokens
}

#[test]
fn lex_braces() {
    let tokens = collect("{ }");

    assert_eq!(
        vec![
            TokenAndSpan::new(Token::OpenDelimiter(DelimiterType::Brace), Span::at(0)),
            TokenAndSpan::new(Token::CloseDelimiter(DelimiterType::Brace), Span::at(2)),
        ],
        tokens
    );
}

#[test]
fn lex_parens() {
    let tokens = collect("( )");

    assert_eq!(
        vec![
            TokenAndSpan::new(Token::OpenDelimiter(DelimiterType::Parenthesis), Span::at(0)),
            TokenAndSpan::new(Token::CloseDelimiter(DelimiterType::Parenthesis), Span::at(2)),
        ],
        tokens
    );
}

#[test]
fn lex_name() {
    let tokens = collect("my_ident");

    assert_eq!(vec![TokenAndSpan::new(Token::Name("my_ident"), Span::from(0, 7))], tokens);
}

#[test]
fn lex_logical_ops() {
    let tokens = collect("&& || !");

    assert_eq!(
        vec![
            TokenAndSpan::new(Token::LogicalAnd, Span::from(0, 1)),
            TokenAndSpan::new(Token::LogicalOr, Span::from(3, 4)),
            TokenAndSpan::new(Token::LogicalNot, Span::at(6)),
        ],
        tokens
    );
}

#[test]
fn lex_bitwise_ops() {
    let tokens = collect("& | ~");

    assert_eq!(
        vec![
            TokenAndSpan::new(Token::BitwiseAnd, Span::at(0)),
            TokenAndSpan::new(Token::BitwiseOr, Span::at(2)),
            TokenAndSpan::new(Token::BitwiseNot, Span::at(4)),
        ],
        tokens
    );
}

#[test]
fn lex_set_modifier() {
    let tokens = collect("|=");

    assert_eq!(vec![TokenAndSpan::new(Token::SetModifier, Span::from(0, 1))], tokens);
}

#[test]
fn lex_dot() {
    let tokens = collect(".");

    assert_eq!(vec![TokenAndSpan::new(Token::Dot, Span::at(0))], tokens);
}

#[test]
fn lex_illegal() {
    let tokens = collect("$");

    assert_eq!(vec![TokenAndSpan::new(Token::Illegal('$'), Span::at(0))], tokens);
}

#[test]
fn lex_semicolon() {
    let tokens = collect(";");

    assert_eq!(vec![TokenAndSpan::new(Token::Semicolon, Span::at(0))], tokens);
}

#[test]
fn lex_doc_example() {
    let tokens = collect("a ; ab");

    assert_eq!(
        vec![
            TokenAndSpan::new(Token::Name("a"), Span::at(0)),
            TokenAndSpan::new(Token::Semicolon, Span::at(2)),
            TokenAndSpan::new(Token::Name("ab"), Span::from(4, 5)),
        ],
        tokens
    );
}

#[test]
fn lex_spans_count_bytes() {
    assert_eq!(
        vec![
            TokenAndSpan::new(Token::Illegal('é'), Span::from(0, 1)),
            TokenAndSpan::new(Token::Semicolon, Span::at(2)),
        ],
        collect("é;")
    );
}

#[test]
fn lex_name_after_a_wide_character() {
    assert_eq!(
        vec![
            TokenAndSpan::new(Token::Illegal('é'), Span::from(0, 1)),
            TokenAndSpan::new(Token::Name("ab"), Span::from(2, 3)),
            TokenAndSpan::new(Token::LogicalOr, Span::from(5, 6)),
            TokenAndSpan::new(Token::Name("xé_1"), Span::from(8, 12)),
        ],
        collect("éab || xé_1")
    );
}
