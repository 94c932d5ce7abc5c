use secsp::syntax::ast::{Keyword, SyntaxKind};
use secsp::syntax::grammar::{parse_macro_param_list, parse_macro_param_list_item};
use secsp::syntax::lexer::tokenize;
use secsp::syntax::parser::{CompletedMarker, Event, Parser, ParserInput};
use secsp::syntax::token::TokenType;

fn tok(ty: TokenType) -> SyntaxKind {
    SyntaxKind::Token(ty)
}

fn parser_for(text: &str) -> Parser<'_> {
    let tokens = tokenize(text);
    Parser::new(ParserInput::new(text, &tokens))
}

#[test]
fn input_leaves_out_trivia() {
    let text = "type  t // note\n;";
    let tokens = tokenize(text);
    let input = ParserInput::new(text, &tokens);
    assert_eq!(tok(TokenType::Name), input.kind(0));
    assert_eq!("type", input.text(0));
    assert_eq!(tok(TokenType::Name), input.kind(1));
    assert_eq!("t", input.text(1));
    assert_eq!(tok(TokenType::Semicolon), input.kind(2));
    assert_eq!(tok(TokenType::Eof), input.kind(3));
    assert_eq!("", input.text(3));
    assert_eq!(tok(TokenType::Eof), input.kind(40));
    assert_eq!("", input.text(40));
}

#[test]
fn lookahead_and_bumping() {
    let mut p = parser_for("a.b");
    assert!(p.at(tok(TokenType::Name)));
    assert!(p.at_text("a"));
    assert!(!p.at_text("b"));
    assert_eq!(tok(TokenType::Dot), p.nth(1));
    assert_eq!("b", p.nth_text(2));
    p.bump();
    assert_eq!(1, p.pos());
    assert!(!p.eat(tok(TokenType::Name)));
    assert!(p.eat(tok(TokenType::Dot)));
    p.bump_as(SyntaxKind::Keyword(Keyword::TYPE));
    assert_eq!(
        &vec![
            Event::Leaf(tok(TokenType::Name)),
            Event::Leaf(tok(TokenType::Dot)),
            Event::Leaf(SyntaxKind::Keyword(Keyword::TYPE)),
        ],
        p.events()
    );
    assert_eq!(tok(TokenType::Eof), p.current());
    assert_eq!("", p.current_text());
}

#[test]
fn expect_consumes_only_what_it_expects() {
    let mut p = parser_for("x ;");
    p.expect(tok(TokenType::Semicolon));
    assert_eq!(0, p.pos());
    assert!(p.events().is_empty());
    p.expect(tok(TokenType::Name));
    assert_eq!(1, p.pos());
    p.expect_one_of(vec![tok(TokenType::Comma), tok(TokenType::Dot)]);
    assert_eq!(1, p.pos());
    p.expect_one_of(vec![tok(TokenType::Comma), tok(TokenType::Semicolon)]);
    assert_eq!(2, p.pos());
    assert_eq!(
        &vec![Event::Leaf(tok(TokenType::Name)), Event::Leaf(tok(TokenType::Semicolon))],
        p.events()
    );
}

#[test]
fn expect_one_of_words() {
    let mut p = parser_for("block b");
    p.expect_one_of_str(vec!["optional", "in"]);
    assert_eq!(0, p.pos());
    p.expect_one_of_str(vec!["optional", "block"]);
    assert_eq!(1, p.pos());
    p.error("ignored");
    assert_eq!(1, p.pos());
    assert_eq!(1, p.events().len());
}

#[test]
fn abandoning_a_fresh_marker_leaves_no_trace() {
    let mut p = parser_for("a");
    p.bump();
    let m = p.mark();
    assert_eq!(2, p.events().len());
    m.abandon(&mut p);
    assert_eq!(&vec![Event::Leaf(tok(TokenType::Name))], p.events());
}

#[test]
fn abandoning_an_older_marker_keeps_its_event() {
    let mut p = parser_for("a");
    let m = p.mark();
    p.bump();
    m.abandon(&mut p);
    assert_eq!(
        &vec![Event::BeginMarker, Event::Leaf(tok(TokenType::Name))],
        p.events()
    );
}

#[test]
fn completing_and_preceding_a_node() {
    let mut p = parser_for("a && b");
    let m = p.mark();
    p.bump();
    let done = m.complete(&mut p, SyntaxKind::PathExpr);
    let outer = done.precede(&mut p);
    p.bump();
    p.bump();
    outer.complete(&mut p, SyntaxKind::BinaryExpr);
    assert_eq!(
        &vec![
            Event::Begin(SyntaxKind::PathExpr, Some(3)),
            Event::Leaf(tok(TokenType::Name)),
            Event::End,
            Event::Begin(SyntaxKind::BinaryExpr, None),
            Event::Leaf(tok(TokenType::DoubleAmpersand)),
            Event::Leaf(tok(TokenType::Name)),
            Event::End,
        ],
        p.events()
    );
}

#[test]
fn a_completed_marker_made_directly() {
    let mut p = parser_for("x");
    let m = p.mark();
    p.bump();
    m.complete(&mut p, SyntaxKind::Variable);
    let c = CompletedMarker::new(SyntaxKind::Variable, 0);
    let parent = c.precede(&mut p);
    assert_eq!(Event::Begin(SyntaxKind::Variable, Some(3)), p.events()[0]);
    parent.abandon(&mut p);
    assert_eq!(3, p.events().len());
}

#[test]
fn macro_parameter_list() {
    let mut p = parser_for("(type t, role r) {}");
    parse_macro_param_list(&mut p);
    assert_eq!(
        &vec![
            Event::Begin(SyntaxKind::MacroParamList, None),
            Event::Leaf(tok(TokenType::OpenParenthesis)),
            Event::Begin(SyntaxKind::MacroParamListItem, None),
            Event::Leaf(SyntaxKind::Keyword(Keyword::TYPE)),
            Event::Leaf(tok(TokenType::Name)),
            Event::End,
            Event::Leaf(tok(TokenType::Comma)),
            Event::Begin(SyntaxKind::MacroParamListItem, None),
            Event::Leaf(SyntaxKind::Keyword(Keyword::ROLE)),
            Event::Leaf(tok(TokenType::Name)),
            Event::End,
            Event::Leaf(tok(TokenType::CloseParenthesis)),
            Event::End,
        ],
        p.events()
    );
    assert_eq!(tok(TokenType::OpenBrace), p.current());
}

#[test]
fn empty_macro_parameter_list() {
    let mut p = parser_for("()");
    parse_macro_param_list(&mut p);
    assert_eq!(
        &vec![
            Event::Begin(SyntaxKind::MacroParamList, None),
            Event::Leaf(tok(TokenType::OpenParenthesis)),
            Event::Leaf(tok(TokenType::CloseParenthesis)),
            Event::End,
        ],
        p.events()
    );
    assert_eq!(2, p.pos());
}

#[test]
fn unclosed_macro_parameter_list() {
    let mut p = parser_for("(user u");
    parse_macro_param_list(&mut p);
    assert_eq!(
        &vec![
            Event::Begin(SyntaxKind::MacroParamList, None),
            Event::Leaf(tok(TokenType::OpenParenthesis)),
            Event::Begin(SyntaxKind::MacroParamListItem, None),
            Event::Leaf(SyntaxKind::Keyword(Keyword::USER)),
            Event::Leaf(tok(TokenType::Name)),
            Event::End,
            Event::End,
        ],
        p.events()
    );
    assert_eq!(tok(TokenType::Eof), p.current());
}

#[test]
fn macro_parameter_without_keyword() {
    let mut p = parser_for("foo bar");
    assert!(!parse_macro_param_list_item(&mut p));
    assert_eq!(
        &vec![
            Event::Begin(SyntaxKind::MacroParamListItem, None),
            Event::Leaf(tok(TokenType::Name)),
            Event::Leaf(tok(TokenType::Name)),
            Event::End,
        ],
        p.events()
    );
}

#[test]
fn no_macro_parameter_here() {
    let mut p = parser_for(") x");
    assert!(!parse_macro_param_list_item(&mut p));
    assert!(p.events().is_empty());
    assert_eq!(0, p.pos());
}

#[test]
fn macro_parameter_followed_by_comma() {
    let mut p = parser_for("category c,");
    assert!(parse_macro_param_list_item(&mut p));
    assert_eq!(3, p.pos());
    assert_eq!(Event::Leaf(tok(TokenType::Comma)), p.events()[4]);
}
