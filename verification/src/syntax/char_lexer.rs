//! A lexer over the characters of a string, whose spans give the byte
//! positions of the first and the last byte of each token.

use vstd::prelude::*;
use vstd::string::*;
use vstd::utf8::*;
use crate::syntax::codemap::Span;
use crate::syntax::lex::text_reader::{byte_off, char_width, lemma_byte_off_mono, lemma_encode_len, lemma_encode_slice};
use crate::text::{alphanumeric, chars_of, is_alphanumeric, is_white_space, utf8_str, white_space};

verus! {

/// A structural code delimiter that can occur in source code.
#[derive(Clone, Copy, Debug, PartialEq, Eq, Structural)]
pub enum DelimiterType {
    /// A curly brace delimiter.  i.e., '{' or '}'.
    Brace,
    /// A parenthesis delimiter.  i.e., '(' or ')'.
    Parenthesis,
}

/// A single lexical unit in the CSP grammar.
#[derive(Clone, Copy, Debug, PartialEq)]
pub enum Token<'a> {
    /// A name identifier token, holding its text from the source.
    Name(&'a str),
    /// A string literal token, holding its text from the source.
    Literal(&'a str),
    /// An opening delimiter token of the given `DelimiterType`.
    OpenDelimiter(DelimiterType),
    /// A closing delimiter token of the given `DelimiterType`.
    CloseDelimiter(DelimiterType),
    /// An unrecognized character that is illegal in the grammar.
    Illegal(char),
    /// The semicolon token. Used to terminate statements.
    Semicolon,
    /// The period token.  Used to separate fully qualified names.
    Dot,
    /// The bitwise binary AND operator: `&`.
    BitwiseAnd,
    /// The bitwise binary OR operator: `|`.
    BitwiseOr,
    /// The bitwise binary XOR operator: `^`.
    BitwiseXor,
    /// The bitwise unary NOT operator: `~`.
    BitwiseNot,
    /// The logical AND operator: `&&`.
    LogicalAnd,
    /// The logical OR operator: `||`.
    LogicalOr,
    /// The logical unary NOT operator: `!`.
    LogicalNot,
    /// The pipe-equals operator, used for flipping on bits in bitsets.
    SetModifier,
}

/// A representation of a `Token` and its locational `Span` information.
#[derive(Clone, Copy, Debug, PartialEq)]
pub struct TokenAndSpan<'a> {
    pub span: Span,
    pub token: Token<'a>,
}

impl<'a> TokenAndSpan<'a> {
    /// A token with its span.
    pub fn new(token: Token<'a>, span: Span) -> (r: Self)
        ensures
            r.token == token,
            r.span == span,
    {
        TokenAndSpan { token, span }
    }
}

/// The model of a token: a name or literal stands for the characters it
/// holds.
pub enum CharTokenModel {
    Name(Seq<char>),
    Literal(Seq<char>),
    OpenDelimiter(DelimiterType),
    CloseDelimiter(DelimiterType),
    Illegal(char),
    Semicolon,
    Dot,
    BitwiseAnd,
    BitwiseOr,
    BitwiseXor,
    BitwiseNot,
    LogicalAnd,
    LogicalOr,
    LogicalNot,
    SetModifier,
}

/// The model of a token.
pub open spec fn char_token_view(t: Token) -> CharTokenModel {
    match t {
        Token::Name(s) => CharTokenModel::Name(s@),
        Token::Literal(s) => CharTokenModel::Literal(s@),
        Token::OpenDelimiter(d) => CharTokenModel::OpenDelimiter(d),
        Token::CloseDelimiter(d) => CharTokenModel::CloseDelimiter(d),
        Token::Illegal(c) => CharTokenModel::Illegal(c),
        Token::Semicolon => CharTokenModel::Semicolon,
        Token::Dot => CharTokenModel::Dot,
        Token::BitwiseAnd => CharTokenModel::BitwiseAnd,
        Token::BitwiseOr => CharTokenModel::BitwiseOr,
        Token::BitwiseXor => CharTokenModel::BitwiseXor,
        Token::BitwiseNot => CharTokenModel::BitwiseNot,
        Token::LogicalAnd => CharTokenModel::LogicalAnd,
        Token::LogicalOr => CharTokenModel::LogicalOr,
        Token::LogicalNot => CharTokenModel::LogicalNot,
        Token::SetModifier => CharTokenModel::SetModifier,
    }
}

/// The outcome of reading a token: the end of the input, or a token with
/// its span and the character position after it.
pub enum CharStep {
    End,
    Token(CharTokenModel, Span, int),
}

/// The characters that begin a name.
pub open spec fn ascii_letter(c: char) -> bool {
    ('a' <= c <= 'z') || ('A' <= c <= 'Z')
}

/// The characters that continue a name.
pub open spec fn name_char(c: char) -> bool {
    alphanumeric(c) || c == '_'
}

/// The number of name characters from `p`.
pub open spec fn name_run(cs: Seq<char>, p: int) -> nat
    decreases cs.len() - p,
{
    if 0 <= p < cs.len() && name_char(cs[p]) {
        1 + name_run(cs, p + 1)
    } else {
        0
    }
}

/// The span of the bytes that encode the characters from `p` up to `q`:
/// the byte position of the first and of the last of those bytes.
pub open spec fn byte_span(cs: Seq<char>, p: int, q: int) -> Span {
    Span { start: byte_off(cs, p) as usize, end: (byte_off(cs, q) - 1) as usize }
}

/// A token that covers the single character at `p`.
pub open spec fn single(cs: Seq<char>, t: CharTokenModel, p: int) -> CharStep {
    CharStep::Token(t, byte_span(cs, p, p + 1), p + 1)
}

/// A token that covers the two characters at `p`.
pub open spec fn double(cs: Seq<char>, t: CharTokenModel, p: int) -> CharStep {
    CharStep::Token(t, byte_span(cs, p, p + 2), p + 2)
}

/// The next token from character `p` of `cs`.  White space is skipped;
/// spans give byte positions, both ends included.
pub open spec fn char_step(cs: Seq<char>, p: int) -> CharStep
    decreases cs.len() - p,
{
    if p < 0 || p >= cs.len() {
        CharStep::End
    } else {
        let c = cs[p];
        if c == ';' {
            single(cs, CharTokenModel::Semicolon, p)
        } else if c == '.' {
            single(cs, CharTokenModel::Dot, p)
        } else if c == '(' {
            single(cs, CharTokenModel::OpenDelimiter(DelimiterType::Parenthesis), p)
        } else if c == ')' {
            single(cs, CharTokenModel::CloseDelimiter(DelimiterType::Parenthesis), p)
        } else if c == '{' {
            single(cs, CharTokenModel::OpenDelimiter(DelimiterType::Brace), p)
        } else if c == '}' {
            single(cs, CharTokenModel::CloseDelimiter(DelimiterType::Brace), p)
        } else if c == '^' {
            single(cs, CharTokenModel::BitwiseXor, p)
        } else if c == '~' {
            single(cs, CharTokenModel::BitwiseNot, p)
        } else if c == '!' {
            single(cs, CharTokenModel::LogicalNot, p)
        } else if c == '&' {
            if p + 1 < cs.len() && cs[p + 1] == '&' {
                double(cs, CharTokenModel::LogicalAnd, p)
            } else {
                single(cs, CharTokenModel::BitwiseAnd, p)
            }
        } else if c == '|' {
            if p + 1 < cs.len() && cs[p + 1] == '|' {
                double(cs, CharTokenModel::LogicalOr, p)
            } else if p + 1 < cs.len() && cs[p + 1] == '=' {
                double(cs, CharTokenModel::SetModifier, p)
            } else {
                single(cs, CharTokenModel::BitwiseOr, p)
            }
        } else if ascii_letter(c) {
            let e = p + 1 + name_run(cs, p + 1);
            CharStep::Token(CharTokenModel::Name(cs.subrange(p, e)), byte_span(cs, p, e), e)
        } else if white_space(c) {
            char_step(cs, p + 1)
        } else {
            single(cs, CharTokenModel::Illegal(c), p)
        }
    }
}

/// A lexer that takes a reference to a `str` slice as input and reads
/// the tokens of it one after the other, with their spans.
pub struct Tokenizer<'a> {
    /// A reference to the source data.
    input: &'a str,
    /// The characters of the source data.
    chars: Vec<char>,
    /// The number of characters read so far.
    pos: usize,
    /// The number of bytes read so far.
    byte: usize,
}

impl<'a> Tokenizer<'a> {
    /// The characters of the input.
    pub closed spec fn spec_chars(&self) -> Seq<char> {
        self.input@
    }

    /// The number of characters read so far.
    pub closed spec fn spec_pos(&self) -> int {
        self.pos as int
    }

    /// The tokenizer is consistent with its input.
    pub closed spec fn wf(&self) -> bool {
        &&& self.chars@ == self.input@
        &&& self.pos <= self.chars@.len()
        &&& self.byte == byte_off(self.chars@, self.pos as int)
        &&& byte_off(self.chars@, self.chars@.len() as int) <= usize::MAX
    }

    /// Create a new `Tokenizer` over the given `input` string.
    pub fn new(input: &'a str) -> (r: Self)
        ensures
            r.wf(),
            r.spec_chars() == input@,
            r.spec_pos() == 0,
    {
        let _byte_len = input.as_bytes().len();
        proof {
            lemma_encode_len(input@, input@.len() as int);
            assert(input@.take(input@.len() as int) =~= input@);
        }
        Tokenizer { input, chars: chars_of(input), pos: 0, byte: 0 }
    }

    /// Reads the next token, or `None` at the end of the input.
    pub fn next(&mut self) -> (r: Option<TokenAndSpan<'a>>)
        requires
            old(self).wf(),
        ensures
            final(self).wf(),
            final(self).spec_chars() == old(self).spec_chars(),
            match char_step(old(self).spec_chars(), old(self).spec_pos()) {
                CharStep::End => r is None && final(self).spec_pos() == old(self).spec_chars().len(),
                CharStep::Token(t, sp, q) => r matches Some(ts) && char_token_view(ts.token) == t
                    && ts.span == sp && final(self).spec_pos() == q,
            },
    {
        let n = self.chars.len();
        let ghost cs = self.chars@;
        let ghost p0 = self.pos as int;
        loop
            invariant
                self.wf(),
                self.input == old(self).input,
                p0 == old(self).pos,
                n == cs.len(),
                cs == self.chars@,
                p0 <= self.pos <= n,
                char_step(cs, self.pos as int) == char_step(cs, p0),
            decreases n - self.pos,
        {
            if self.pos >= n {
                return None;
            }
            let p = self.pos;
            let b = self.byte;
            let c = self.chars[p];
            proof {
                lemma_byte_off_mono(cs, p + 1, n as int);
            }
            let w = char_width(c);
            self.pos = p + 1;
            self.byte = b + w as usize;
            let here = Span::from(b, b + w as usize - 1);
            if c == ';' {
                return Some(TokenAndSpan::new(Token::Semicolon, here));
            } else if c == '.' {
                return Some(TokenAndSpan::new(Token::Dot, here));
            } else if c == '(' {
                return Some(TokenAndSpan::new(Token::OpenDelimiter(DelimiterType::Parenthesis), here));
            } else if c == ')' {
                return Some(TokenAndSpan::new(Token::CloseDelimiter(DelimiterType::Parenthesis), here));
            } else if c == '{' {
                return Some(TokenAndSpan::new(Token::OpenDelimiter(DelimiterType::Brace), here));
            } else if c == '}' {
                return Some(TokenAndSpan::new(Token::CloseDelimiter(DelimiterType::Brace), here));
            } else if c == '^' {
                return Some(TokenAndSpan::new(Token::BitwiseXor, here));
            } else if c == '~' {
                return Some(TokenAndSpan::new(Token::BitwiseNot, here));
            } else if c == '!' {
                return Some(TokenAndSpan::new(Token::LogicalNot, here));
            } else if c == '&' {
                if p + 1 < n && self.chars[p + 1] == '&' {
                    proof {
                        lemma_byte_off_mono(cs, p + 2, n as int);
                    }
                    self.pos = p + 2;
                    self.byte = b + 2;
                    return Some(TokenAndSpan::new(Token::LogicalAnd, Span::from(b, b + 1)));
                }
                return Some(TokenAndSpan::new(Token::BitwiseAnd, here));
            } else if c == '|' {
                if p + 1 < n && self.chars[p + 1] == '|' {
                    proof {
                        lemma_byte_off_mono(cs, p + 2, n as int);
                    }
                    self.pos = p + 2;
                    self.byte = b + 2;
                    return Some(TokenAndSpan::new(Token::LogicalOr, Span::from(b, b + 1)));
                }
                if p + 1 < n && self.chars[p + 1] == '=' {
                    proof {
                        lemma_byte_off_mono(cs, p + 2, n as int);
                    }
                    self.pos = p + 2;
                    self.byte = b + 2;
                    return Some(TokenAndSpan::new(Token::SetModifier, Span::from(b, b + 1)));
                }
                return Some(TokenAndSpan::new(Token::BitwiseOr, here));
            } else if ('a' <= c && c <= 'z') || ('A' <= c && c <= 'Z') {
                return Some(self.name(p, b));
            } else if is_white_space(c) {
                continue;
            } else {
                return Some(TokenAndSpan::new(Token::Illegal(c), here));
            }
        }
    }

    /// Reads the rest of the name whose first character is at `p`, at byte
    /// `b`.
    fn name(&mut self, p: usize, b: usize) -> (r: TokenAndSpan<'a>)
        requires
            old(self).wf(),
            old(self).pos == p + 1,
            p < old(self).chars@.len(),
            b == byte_off(old(self).chars@, p as int),
        ensures
            final(self).wf(),
            final(self).input == old(self).input,
            ({
                let cs = old(self).input@;
                let e = p + 1 + name_run(cs, p + 1);
                &&& final(self).pos == e
                &&& char_token_view(r.token) == CharTokenModel::Name(cs.subrange(p as int, e))
                &&& r.span == byte_span(cs, p as int, e)
            }),
    {
        let n = self.chars.len();
        let ghost cs = self.chars@;
        let ghost inp = self.input;
        while self.pos < n && (is_alphanumeric(self.chars[self.pos]) || self.chars[self.pos] == '_')
            invariant
                self.wf(),
                self.input == inp,
                n == cs.len(),
                cs == self.chars@,
                p + 1 <= self.pos <= n,
                p + 1 + name_run(cs, p + 1) == self.pos + name_run(cs, self.pos as int),
            decreases n - self.pos,
        {
            proof {
                lemma_byte_off_mono(cs, self.pos + 1, n as int);
            }
            self.byte = self.byte + char_width(self.chars[self.pos]) as usize;
            self.pos = self.pos + 1;
        }
        let e = self.pos;
        let be = self.byte;
        proof {
            lemma_byte_off_mono(cs, p as int, e as int);
            lemma_byte_off_mono(cs, p + 1, e as int);
            lemma_encode_slice(cs, p as int, e as int);
            encode_utf8_valid_utf8(cs.subrange(p as int, e as int));
        }
        let bytes = self.input.as_bytes();
        assert(bytes@ == encode_utf8(cs));
        assert(bytes@.subrange(b as int, be as int) == encode_utf8(cs.subrange(p as int, e as int)));
        let span = Span::from(b, be - 1);
        assert(span == byte_span(cs, p as int, e as int));
        match utf8_str(&bytes[b..be]) {
            Some(text) => {
                proof {
                    encode_utf8_decode_utf8(text@);
                    encode_utf8_decode_utf8(cs.subrange(p as int, e as int));
                    assert(text@ == cs.subrange(p as int, e as int));
                }
                TokenAndSpan::new(Token::Name(text), span)
            },
            None => TokenAndSpan::new(Token::Name(""), span),
        }
    }
}

} // verus!

verus! {

/// A run of name characters stays within the input.
pub proof fn lemma_name_run(cs: Seq<char>, p: int)
    requires
        0 <= p <= cs.len(),
    ensures
        p + name_run(cs, p) <= cs.len(),
    decreases cs.len() - p,
{
    if p < cs.len() && name_char(cs[p]) {
        lemma_name_run(cs, p + 1);
    }
}

} // verus!
