use codespan::{CodeMap, FileName};
use secsp::syntax::lex::token::{DelimiterType, Token};
use secsp::syntax::lex::token_cursor::TokenCursor;
use secsp::syntax::lex::Tokenizer;
use secsp::syntax::lexer::tokenize;
use secsp::syntax::token::TokenType;

/// Tokenizes `src` as the first file of a code map and reads the tokens
/// back through a cursor, as (start, token, end).
fn lexed(src: &str) -> Vec<(u32, Token, u32)> {
    let mut code_map = CodeMap::new();
    let file_map = code_map.add_filemap(FileName::Virtual("unknown".into()), src.to_string());
    let base = file_map.span().start().to_usize() as u32;
    let mut tokenizer = Tokenizer::new(file_map.src(), base);
    let token_trees = tokenizer.tokenize().expect("unable to tokenize");
    let mut cursor = TokenCursor::new(token_trees);
    let mut tokens = vec![];
    while let Some(tok) = cursor.next() {
        tokens.push((tok.span().start(), tok.token(), tok.span().end()));
    }
    tokens
}

fn expected(marks: Vec<(&str, Token)>) -> Vec<(u32, Token, u32)> {
    marks
        .into_iter()
        .map(|(span, token)| {
            let start = span.find('~').unwrap() as u32 + 1;
            let end = span.rfind('~').unwrap() as u32 + 2;
            (start, token, end)
        })
        .collect()
}

#[test]
fn nested_delimited_tree() {
    assert_eq!(
        expected(vec![
            ("  ~               ", Token::OpenDelimiter(DelimiterType::Brace)),
            ("    ~~~           ", Token::Name("abc".to_owned())),
            ("        ~~~       ", Token::Name("efg".to_owned())),
            ("            ~     ", Token::OpenDelimiter(DelimiterType::Brace)),
            ("             ~    ", Token::CloseDelimiter(DelimiterType::Brace)),
            ("               ~  ", Token::CloseDelimiter(DelimiterType::Brace)),
        ]),
        lexed("  { abc efg {} }  ")
    );
}

#[test]
fn logical_operators() {
    assert_eq!(
        expected(vec![
            ("  ~~         ", Token::LogicalOr),
            ("      ~~     ", Token::LogicalAnd),
            ("          ~  ", Token::LogicalNot),
        ]),
        lexed("  ||  &&  !  ")
    );
}

#[test]
fn bitwise_operators() {
    assert_eq!(
        expected(vec![
            ("  ~           ", Token::BitwiseOr),
            ("     ~        ", Token::BitwiseAnd),
            ("        ~     ", Token::BitwiseXor),
            ("           ~  ", Token::BitwiseNot),
        ]),
        lexed("  |  &  ^  ~  ")
    );
}

#[test]
fn punctuation() {
    assert_eq!(
        expected(vec![
            ("  ~        ", Token::Semicolon),
            ("     ~     ", Token::Dot),
            ("        ~  ", Token::Comma),
        ]),
        lexed("  ;  .  ,  ")
    );
}

#[test]
fn preserves_whitespace() {
    let types: Vec<TokenType> = tokenize("test abc 123").into_iter().map(|t| t.ty()).collect();

    assert_eq!(
        vec![
            TokenType::Name,
            TokenType::Whitespace,
            TokenType::Name,
            TokenType::Whitespace,
            TokenType::Integer,
            TokenType::Eof,
        ],
        types
    );
}
