//! The tokens read from source text.

use vstd::prelude::*;

verus! {

/// An interned string identified by a unique id.
#[derive(Clone, Copy, Debug, PartialEq, Eq, Structural)]
pub struct Symbol(pub usize);

/// A structural code delimiter that can occur in source code.
#[derive(Clone, Copy, Debug, PartialEq, Eq, Structural)]
pub enum DelimiterType {
    /// A curly brace delimiter.  i.e., '{' or '}'.
    Brace,
    /// A parenthesis delimiter.  i.e., '(' or ')'.
    Parenthesis,
}

/// A single lexical unit in the CSP grammar.
#[derive(Clone, Debug, PartialEq, Eq)]
pub enum Token {
    /// A name identifier token, holding its text from the source.
    Name(String),
    /// A string literal token, holding its text from the source.
    Literal(String),
    /// An opening delimiter token of the given `DelimiterType`.
    OpenDelimiter(DelimiterType),
    /// A closing delimiter token of the given `DelimiterType`.
    CloseDelimiter(DelimiterType),
    /// An unrecognized character that is illegal in the grammar.
    Illegal(char),
    /// The semicolon token. Used to terminate statements.
    Semicolon,
    /// The period token.  Used to separate fully qualified names.
    Dot,
    /// The comma token.  Used as a delimiter.
    Comma,
    /// The bitwise binary AND operator: `&`.
    BitwiseAnd,
    /// The bitwise binary OR operator: `|`.
    BitwiseOr,
    /// The bitwise binary XOR operator: `^`.
    BitwiseXor,
    /// The bitwise unary NOT operator: `~`.
    BitwiseNot,
    /// The logical AND operator: `&&`.
    LogicalAnd,
    /// The logical OR operator: `||`.
    LogicalOr,
    /// The logical unary NOT operator: `!`.
    LogicalNot,
    /// The pipe-equals operator, used for flipping on bits in bitsets.
    SetModifier,
    /// A token indicating the end of file has been reached.
    Eof,
}

/// The model of a `Token`: names and literals hold character sequences.
pub enum SpecToken {
    Name(Seq<char>),
    Literal(Seq<char>),
    OpenDelimiter(DelimiterType),
    CloseDelimiter(DelimiterType),
    Illegal(char),
    Semicolon,
    Dot,
    Comma,
    BitwiseAnd,
    BitwiseOr,
    BitwiseXor,
    BitwiseNot,
    LogicalAnd,
    LogicalOr,
    LogicalNot,
    SetModifier,
    Eof,
}

/// The model of a token.
pub open spec fn token_view(t: Token) -> SpecToken {
    match t {
        Token::Name(s) => SpecToken::Name(s@),
        Token::Literal(s) => SpecToken::Literal(s@),
        Token::OpenDelimiter(d) => SpecToken::OpenDelimiter(d),
        Token::CloseDelimiter(d) => SpecToken::CloseDelimiter(d),
        Token::Illegal(c) => SpecToken::Illegal(c),
        Token::Semicolon => SpecToken::Semicolon,
        Token::Dot => SpecToken::Dot,
        Token::Comma => SpecToken::Comma,
        Token::BitwiseAnd => SpecToken::BitwiseAnd,
        Token::BitwiseOr => SpecToken::BitwiseOr,
        Token::BitwiseXor => SpecToken::BitwiseXor,
        Token::BitwiseNot => SpecToken::BitwiseNot,
        Token::LogicalAnd => SpecToken::LogicalAnd,
        Token::LogicalOr => SpecToken::LogicalOr,
        Token::LogicalNot => SpecToken::LogicalNot,
        Token::SetModifier => SpecToken::SetModifier,
        Token::Eof => SpecToken::Eof,
    }
}

impl View for Token {
    type V = SpecToken;

    open spec fn view(&self) -> SpecToken {
        token_view(*self)
    }
}

/// A copy of a token.
pub fn copy_token(t: &Token) -> (r: Token)
    ensures
        r@ == t@,
{
    match t {
        Token::Name(s) => Token::Name(s.clone()),
        Token::Literal(s) => Token::Literal(s.clone()),
        Token::OpenDelimiter(d) => Token::OpenDelimiter(*d),
        Token::CloseDelimiter(d) => Token::CloseDelimiter(*d),
        Token::Illegal(c) => Token::Illegal(*c),
        Token::Semicolon => Token::Semicolon,
        Token::Dot => Token::Dot,
        Token::Comma => Token::Comma,
        Token::BitwiseAnd => Token::BitwiseAnd,
        Token::BitwiseOr => Token::BitwiseOr,
        Token::BitwiseXor => Token::BitwiseXor,
        Token::BitwiseNot => Token::BitwiseNot,
        Token::LogicalAnd => Token::LogicalAnd,
        Token::LogicalOr => Token::LogicalOr,
        Token::LogicalNot => Token::LogicalNot,
        Token::SetModifier => Token::SetModifier,
        Token::Eof => Token::Eof,
    }
}

} // verus!
