use secsp::ast::SymbolType;
use secsp::syntax::ast::{Keyword, SyntaxKind};
use secsp::syntax::codemap::{CodeMap, Span};
use secsp::syntax::diagnostic::{Diagnostic, DiagnosticLog, Severity};
use secsp::syntax::keywords::is_symbol_ty;
use secsp::syntax::lex::span::ByteSpan;
use secsp::syntax::lex::text_reader::{IndexedChar, TextReader};
use secsp::syntax::lex::token::{DelimiterType, Token};
use secsp::syntax::lex::token_cursor::{TokenAndSpan, TokenCursor};
use secsp::syntax::lex::token_tree::TokenTree;
use secsp::syntax::lex::Tokenizer;
use secsp::syntax::lexer::tokenize;
use secsp::syntax::stmt::{ExprContext, InitializerKind, StatementType};
use secsp::syntax::token::TokenType;

#[test]
fn spans() {
    let a = Span::from(2, 5);
    assert_eq!(4, a.len());
    assert_eq!(1, Span::at(7).len());
    assert_eq!(Span::from(1, 9), a.join(&Span::from(1, 9)));
    assert_eq!(Span::from(0, 9), Span::from(0, 4).join(&Span::at(9)));
    assert_eq!(Span::from(0, 6), Span::from(0, 3).join(&Span::at(6)));
    assert!(a.join(&Span::at(9)).contains(&a));
    assert!(a.contains(&Span::from(3, 4)));
    assert!(a.contains(&a));
    assert!(!a.contains(&Span::from(1, 4)));
}

#[test]
fn code_map_of_lines() {
    let map = CodeMap::new("a\nbc\n\nd");
    assert_eq!(&vec![0, 2, 5, 6], map.lines());
    let empty = CodeMap::new("");
    assert_eq!(&vec![0], empty.lines());
}

#[test]
fn byte_spans() {
    assert_eq!(ByteSpan { start: 2, end: 5 }, ByteSpan::new(5, 2));
    assert_eq!(ByteSpan { start: 2, end: 9 }, ByteSpan::new(2, 5).to(&ByteSpan::new(7, 9)));
    assert_eq!(ByteSpan { start: 2, end: 3 }, ByteSpan::new(3, 6).with_start(2).with_end(3));
    assert_eq!(ByteSpan { start: 0, end: 0 }, ByteSpan::default());
}

#[test]
fn keywords() {
    assert!(is_symbol_ty("type"));
    assert!(is_symbol_ty("user_attribute"));
    assert!(!is_symbol_ty("block"));
    assert_eq!(Some(Keyword::LEVEL_RANGE), Keyword::from_str("level_range"));
    assert_eq!(None, Keyword::from_str("levelrange"));
    assert!(Keyword::SENSITIVITY.is_var_type());
    assert!(!Keyword::BLOCK.is_var_type());
    assert_eq!(SyntaxKind::Keyword(Keyword::MACRO), Keyword::MACRO.into_kind());
    assert_eq!(SyntaxKind::Token(TokenType::Dot), TokenType::Dot.into_kind());
}

#[test]
fn statement_types() {
    assert_eq!(
        Some(StatementType::SymbolDeclaration(
            SymbolType::TypeAttribute,
            InitializerKind::Optional(ExprContext::Type)
        )),
        StatementType::from_keyword("type_attribute")
    );
    assert_eq!(
        Some(StatementType::SymbolDeclaration(
            SymbolType::Context,
            InitializerKind::Required(ExprContext::Context)
        )),
        StatementType::from_keyword("context")
    );
    assert_eq!(Some(StatementType::ContainerDeclaration), StatementType::from_keyword("in"));
    assert_eq!(Some(StatementType::MacroDeclaration), StatementType::from_keyword("macro"));
    assert_eq!(None, StatementType::from_keyword("my_macro"));
    assert!(StatementType::MacroDeclaration.is_block());
    assert!(!StatementType::Call.is_block());
    assert!(StatementType::SymbolDeclaration(SymbolType::Type, InitializerKind::Invalid).is_declaration());
    assert!(!StatementType::Conditional.is_declaration());
}

#[test]
fn reader_reads_characters_with_byte_positions() {
    let mut reader = TextReader::new("a\u{e9};", 1);
    assert_eq!(Some(IndexedChar(ByteSpan { start: 1, end: 2 }, 'a')), reader.next());
    let c = reader.peek().unwrap();
    assert_eq!(ByteSpan { start: 2, end: 4 }, c.position());
    assert_eq!('\u{e9}', c.char());
    assert_eq!(Some(c), reader.next());
    assert_eq!(Some(IndexedChar(ByteSpan { start: 4, end: 5 }, ';')), reader.next());
    assert_eq!(None, reader.next());
}

#[test]
fn reader_slices_the_source_by_position() {
    let reader = TextReader::new("a\u{e9};", 1);
    assert_eq!("\u{e9};", reader.range(ByteSpan { start: 2, end: 5 }));
    assert_eq!("a", reader.range(ByteSpan { start: 1, end: 2 }));
    assert_eq!("", reader.range(ByteSpan { start: 4, end: 4 }));
}

#[test]
fn reader_reads_tokens() {
    let mut reader = TextReader::new("  foo_1 && |= \u{e9}", 1);
    assert_eq!((Token::Name("foo_1".to_owned()), ByteSpan { start: 3, end: 8 }), reader.read_next_token());
    assert_eq!((Token::LogicalAnd, ByteSpan { start: 9, end: 11 }), reader.read_next_token());
    assert_eq!((Token::SetModifier, ByteSpan { start: 12, end: 14 }), reader.read_next_token());
    assert_eq!((Token::Illegal('\u{e9}'), ByteSpan { start: 15, end: 17 }), reader.read_next_token());
    assert_eq!((Token::Eof, ByteSpan::default()), reader.read_next_token());
}

#[test]
fn reader_names_may_continue_with_any_letter() {
    let mut reader = TextReader::new("a\u{e9}1;", 1);
    assert_eq!((Token::Name("a\u{e9}1".to_owned()), ByteSpan { start: 1, end: 5 }), reader.read_next_token());
    assert_eq!((Token::Semicolon, ByteSpan { start: 5, end: 6 }), reader.read_next_token());
}

#[test]
fn unclosed_delimiter_is_reported() {
    let mut tokenizer = Tokenizer::new("{ a", 1);
    let trees = tokenizer.tokenize().expect("a tree");
    assert_eq!(
        vec![TokenTree::Delimited(
            ByteSpan { start: 0, end: 2 },
            DelimiterType::Brace,
            vec![TokenTree::Token(ByteSpan { start: 3, end: 4 }, Token::Name("a".to_owned()))]
        )],
        trees
    );
    let emitted = tokenizer.emitted();
    assert_eq!(1, emitted.len());
    assert_eq!("this file contains an un-closed delimiter", emitted[0].message);
    assert_eq!(1, emitted[0].labels.len());
    assert_eq!(ByteSpan { start: 1, end: 2 }, emitted[0].labels[0].span);
    assert_eq!(Some("did you mean to close this delimiter?".to_owned()), emitted[0].labels[0].message);
}

#[test]
fn unexpected_close_delimiter_is_an_error() {
    let mut tokenizer = Tokenizer::new("}", 1);
    let err = tokenizer.tokenize().expect_err("an error");
    assert_eq!("unexpected_close_delimiter", err.message);
    assert_eq!(ByteSpan { start: 1, end: 2 }, err.labels[0].span);
    assert_eq!(None, err.labels[0].message);
}

#[test]
fn incorrect_close_delimiter_is_reported_and_read() {
    let mut tokenizer = Tokenizer::new("( }", 1);
    let trees = tokenizer.tokenize().expect("a tree");
    assert_eq!(
        vec![TokenTree::Delimited(ByteSpan { start: 1, end: 4 }, DelimiterType::Parenthesis, vec![])],
        trees
    );
    let emitted = tokenizer.emitted();
    assert_eq!(1, emitted.len());
    assert_eq!("incorrect close delimiter", emitted[0].message);
    assert_eq!(ByteSpan { start: 1, end: 2 }, emitted[0].labels[0].span);
}

#[test]
fn cursor_collects_the_flattened_trees_then_stays_at_the_end() {
    let trees = vec![
        TokenTree::Token(ByteSpan { start: 0, end: 1 }, Token::Name("a".to_owned())),
        TokenTree::Delimited(
            ByteSpan { start: 2, end: 6 },
            DelimiterType::Brace,
            vec![TokenTree::Token(ByteSpan { start: 3, end: 4 }, Token::Semicolon)],
        ),
    ];
    let mut cursor = TokenCursor::new(trees);
    let tokens: Vec<(Token, ByteSpan)> = cursor.collect().into_iter().map(|t| t.consume()).collect();
    assert_eq!(
        vec![
            (Token::Name("a".to_owned()), ByteSpan { start: 0, end: 1 }),
            (Token::OpenDelimiter(DelimiterType::Brace), ByteSpan { start: 2, end: 3 }),
            (Token::Semicolon, ByteSpan { start: 3, end: 4 }),
            (Token::CloseDelimiter(DelimiterType::Brace), ByteSpan { start: 5, end: 6 }),
        ],
        tokens
    );
    for _ in 0..3 {
        assert_eq!((Token::Eof, ByteSpan::default()), cursor.advance().consume());
        assert!(cursor.next().is_none());
    }
}

#[test]
fn cursor_yields_eof_when_done() {
    let mut cursor = TokenCursor::new(vec![TokenTree::Token(ByteSpan { start: 4, end: 5 }, Token::Dot)]);
    let first: TokenAndSpan = cursor.advance();
    assert_eq!(Token::Dot, first.token());
    assert_eq!(ByteSpan { start: 4, end: 5 }, first.span());
    let (tok, span) = cursor.advance().consume();
    assert_eq!(Token::Eof, tok);
    assert_eq!(ByteSpan::default(), span);
}

#[test]
fn lexer_takes_longest_matches() {
    let tokens = tokenize("true falsey 0x1F 0x 12 \"a\\\"b\" // c\n$$");
    let summary: Vec<(TokenType, usize, usize)> =
        tokens.iter().map(|t| (t.ty(), t.range().start, t.range().end)).collect();
    assert_eq!(
        vec![
            (TokenType::True, 0, 4),
            (TokenType::Whitespace, 4, 5),
            (TokenType::Name, 5, 11),
            (TokenType::Whitespace, 11, 12),
            (TokenType::Integer, 12, 16),
            (TokenType::Whitespace, 16, 17),
            (TokenType::Integer, 17, 18),
            (TokenType::Name, 18, 19),
            (TokenType::Whitespace, 19, 20),
            (TokenType::Integer, 20, 22),
            (TokenType::Whitespace, 22, 23),
            (TokenType::String, 23, 29),
            (TokenType::Whitespace, 29, 30),
            (TokenType::LineComment, 30, 34),
            (TokenType::Whitespace, 34, 35),
            (TokenType::Illegal, 35, 37),
            (TokenType::Eof, 37, 38),
        ],
        summary
    );
    assert!(tokens[1].is_trivia());
    assert!(tokens[13].is_trivia());
    assert!(!tokens[0].is_trivia());
}

#[test]
fn lexer_ends_with_eof_past_the_input() {
    let ts = tokenize("test");
    assert_eq!(2, ts.len());
    assert_eq!(TokenType::Name, ts[0].ty());
    assert_eq!(0..4, ts[0].range());
    assert_eq!(TokenType::Eof, ts[1].ty());
    assert_eq!(4..5, ts[1].range());
}

#[test]
fn lexer_skips_control_characters_and_stops_at_nul() {
    let summary: Vec<(TokenType, usize, usize)> = tokenize("a\u{1}b\u{0}c")
        .iter()
        .map(|t| (t.ty(), t.range().start, t.range().end))
        .collect();
    assert_eq!(vec![(TokenType::Name, 0, 1), (TokenType::Name, 2, 3), (TokenType::Eof, 3, 4)], summary);
}

#[test]
fn lexer_counts_bytes() {
    let summary: Vec<(TokenType, usize, usize)> = tokenize("\u{e9}\u{e9} x")
        .iter()
        .map(|t| (t.ty(), t.range().start, t.range().end))
        .collect();
    assert_eq!(
        vec![
            (TokenType::Illegal, 0, 4),
            (TokenType::Whitespace, 4, 5),
            (TokenType::Name, 5, 6),
            (TokenType::Eof, 6, 7)
        ],
        summary
    );
}

#[test]
fn cursor_gives_back_what_the_reader_reads() {
    let src = "m(a, { b ^ c }); ( d ) {}";
    let mut reader = TextReader::new(src, 7);
    let mut read = vec![];
    loop {
        let (token, span) = reader.read_next_token();
        if token == Token::Eof {
            break;
        }
        read.push((token, span));
    }
    let mut tokenizer = Tokenizer::new(src, 7);
    let trees = tokenizer.tokenize().expect("balanced delimiters");
    assert!(tokenizer.emitted().is_empty());
    let mut cursor = TokenCursor::new(trees);
    let mut back = vec![];
    while let Some(t) = cursor.next() {
        back.push(t.consume());
    }
    assert_eq!(read, back);
}

#[test]
fn diagnostic_log_keeps_reports_in_order() {
    let mut log = DiagnosticLog::new();
    let first = Diagnostic::new(Severity::Error, "first").span(ByteSpan { start: 1, end: 2 });
    let second = Diagnostic::new(Severity::Warning, "second").span_err(ByteSpan { start: 3, end: 4 }, "here");
    log.handle(&first);
    log.handle(&second);
    assert_eq!(2, log.emitted().len());
    assert_eq!(first, log.emitted()[0]);
    assert_eq!(second, log.emitted()[1]);
    assert_eq!(Severity::Warning, log.emitted()[1].severity);
    assert_eq!(Some("here".to_owned()), log.emitted()[1].labels[0].message);
}
