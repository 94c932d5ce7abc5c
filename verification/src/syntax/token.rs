//! The tokens of the whitespace and comment preserving lexer.

use vstd::prelude::*;

verus! {

/// The kinds of tokens.
#[derive(Copy, Clone, Debug, PartialEq, Eq, Structural)]
pub enum TokenType {
    /// A name identifier: a letter or `_`, then letters, digits and `_`.
    Name,
    /// A string literal in double quotes, with backslash escapes.
    String,
    /// The literal `true`.
    True,
    /// The literal `false`.
    False,
    /// A decimal integer, or a hexadecimal one written `0x...`.
    Integer,
    /// `(`
    OpenParenthesis,
    /// `)`
    CloseParenthesis,
    /// `{`
    OpenBrace,
    /// `}`
    CloseBrace,
    /// The semicolon token. Used to terminate statements.
    Semicolon,
    /// The period token.  Used to separate fully qualified names.
    Dot,
    /// The double period token.  Used as the range operator.
    DotDot,
    /// The colon token.  Used as a security attribute delimiter.
    Colon,
    /// The hyphen token.
    Hyphen,
    /// The comma token.  Used as a delimiter.
    Comma,
    /// The equals token.  Used as an initializer and assignment token.
    Equals,
    /// The bitwise binary AND operator: `&`.
    Ampersand,
    /// The bitwise binary OR operator: `|`.
    Pipe,
    /// The bitwise binary XOR operator: `^`.
    Caret,
    /// The bitwise unary NOT operator: `~`.
    Tilde,
    /// The logical AND operator: `&&`.
    DoubleAmpersand,
    /// The logical OR operator: `||`.
    DoublePipe,
    /// The logical unary NOT operator: `!`.
    Exclamation,
    /// The pipe-equals operator, used for flipping on bits in bitsets.
    PipeEquals,
    /// A C-style line comment.
    LineComment,
    /// A white space character.
    Whitespace,
    /// Input that no token matches.
    Illegal,
    /// A token indicating the end of file has been reached.
    Eof,
}

/// A single unit of output by the lexer: its type and the byte range it
/// covers in the source.
#[derive(Copy, Clone, Debug)]
pub struct Token(pub TokenType, pub usize, pub usize);

impl Token {
    /// A token of type `ty` covering `range`.
    pub fn new(ty: TokenType, range: std::ops::Range<usize>) -> (r: Self)
        ensures
            r.0 == ty,
            r.1 == range.start,
            r.2 == range.end,
    {
        Token(ty, range.start, range.end)
    }

    /// The type of this token.
    pub fn ty(&self) -> (r: TokenType)
        ensures
            r == self.0,
    {
        self.0
    }

    /// The byte range this token covers.
    pub fn range(&self) -> (r: std::ops::Range<usize>)
        ensures
            r.start == self.1,
            r.end == self.2,
    {
        self.1..self.2
    }

    /// Whether this token is trivia: a comment or white space.
    pub fn is_trivia(&self) -> (r: bool)
        ensures
            r == (self.0 == TokenType::LineComment || self.0 == TokenType::Whitespace),
    {
        match self.0 {
            TokenType::LineComment | TokenType::Whitespace => true,
            _ => false,
        }
    }
}

} // verus!
