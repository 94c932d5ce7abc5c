//! A white space and comment preserving lexer for use in both the compiler
//! front-end and editors.
//!
//! Each token is the longest piece of input, from where the previous one
//! ended, that one of the token patterns matches; `true` and `false` are
//! literals rather than names.  Control characters that no pattern matches
//! are skipped, a NUL character ends the input, and any other character
//! that no pattern matches is `Illegal`; a run of illegal input becomes a
//! single token.  The output holds only the type of each token and the
//! byte range it covers; `Eof` covers the one position at which the input
//! ends, so `tokenize("test")` gives a `Name` over `0..4` and `Eof` over
//! `4..5`.

use vstd::prelude::*;
use crate::syntax::lex::text_reader::{byte_off, char_width, lemma_byte_off_mono};
use crate::syntax::token::{Token, TokenType};
use crate::text::{chars_of, is_white_space, white_space};

verus! {

/// Control characters that no token pattern begins with; the lexer skips them.
pub open spec fn skipped_char(c: char) -> bool {
    let u = c as u32;
    (1 <= u <= 8) || (14 <= u <= 31)
}

/// The characters that begin a name.
pub open spec fn word_start(c: char) -> bool {
    ('a' <= c <= 'z') || ('A' <= c <= 'Z') || c == '_'
}

/// The characters that continue a name.
pub open spec fn word_char(c: char) -> bool {
    word_start(c) || ('0' <= c <= '9')
}

/// Decimal digits.
pub open spec fn digit(c: char) -> bool {
    '0' <= c <= '9'
}

/// Hexadecimal digits.
pub open spec fn hex_digit(c: char) -> bool {
    digit(c) || ('a' <= c <= 'f') || ('A' <= c <= 'F')
}

/// The number of name characters from `p`.
pub open spec fn word_run(cs: Seq<char>, p: int) -> nat
    decreases cs.len() - p,
{
    if 0 <= p < cs.len() && word_char(cs[p]) {
        1 + word_run(cs, p + 1)
    } else {
        0
    }
}

/// The number of decimal digits from `p`.
pub open spec fn digit_run(cs: Seq<char>, p: int) -> nat
    decreases cs.len() - p,
{
    if 0 <= p < cs.len() && digit(cs[p]) {
        1 + digit_run(cs, p + 1)
    } else {
        0
    }
}

/// The number of hexadecimal digits from `p`.
pub open spec fn hex_run(cs: Seq<char>, p: int) -> nat
    decreases cs.len() - p,
{
    if 0 <= p < cs.len() && hex_digit(cs[p]) {
        1 + hex_run(cs, p + 1)
    } else {
        0
    }
}

/// The number of characters other than a line feed from `p`.
pub open spec fn line_run(cs: Seq<char>, p: int) -> nat
    decreases cs.len() - p,
{
    if 0 <= p < cs.len() && cs[p] != '\n' {
        1 + line_run(cs, p + 1)
    } else {
        0
    }
}

/// The end of a string literal whose body starts at `q`: after the first
/// double quote that no backslash escapes.  There is none where the input
/// ends first, or where a backslash stands last or before a line feed.
pub open spec fn string_end(cs: Seq<char>, q: int) -> Option<int>
    decreases cs.len() - q,
{
    if q < 0 || q >= cs.len() {
        None
    } else if cs[q] == '"' {
        Some(q + 1)
    } else if cs[q] == '\\' {
        if q + 1 < cs.len() && cs[q + 1] != '\n' {
            string_end(cs, q + 2)
        } else {
            None
        }
    } else {
        string_end(cs, q + 1)
    }
}

/// A token of one character.
pub open spec fn one(ty: TokenType, p: int) -> (TokenType, int, int) {
    (ty, p, p + 1)
}

/// A token of one character, or of two where the next one is `next`.
pub open spec fn one_or_two(cs: Seq<char>, p: int, ty1: TokenType, next: char, ty2: TokenType) -> (
    TokenType,
    int,
    int,
) {
    if p + 1 < cs.len() && cs[p + 1] == next {
        (ty2, p, p + 2)
    } else {
        (ty1, p, p + 1)
    }
}

/// The next token from character `p`: its type and the characters it
/// covers.  `Eof` covers nothing.
pub open spec fn lex_step(cs: Seq<char>, p: int) -> (TokenType, int, int)
    decreases cs.len() - p,
{
    if p < 0 || p >= cs.len() || cs[p] == '\0' {
        (TokenType::Eof, p, p)
    } else {
        let c = cs[p];
        if skipped_char(c) {
            lex_step(cs, p + 1)
        } else if word_start(c) {
            let n = 1 + word_run(cs, p + 1);
            let w = cs.subrange(p, p + n);
            (
                if w == seq!['t', 'r', 'u', 'e'] {
                    TokenType::True
                } else if w == seq!['f', 'a', 'l', 's', 'e'] {
                    TokenType::False
                } else {
                    TokenType::Name
                },
                p,
                p + n,
            )
        } else if digit(c) {
            let h = hex_run(cs, p + 2);
            if c == '0' && p + 1 < cs.len() && (cs[p + 1] == 'x' || cs[p + 1] == 'X') && h > 0 {
                (TokenType::Integer, p, p + 2 + h)
            } else {
                (TokenType::Integer, p, p + digit_run(cs, p))
            }
        } else if c == '"' {
            match string_end(cs, p + 1) {
                Some(e) => (TokenType::String, p, e),
                None => one(TokenType::Illegal, p),
            }
        } else if c == '/' {
            if p + 1 < cs.len() && cs[p + 1] == '/' {
                (TokenType::LineComment, p, p + 2 + line_run(cs, p + 2))
            } else {
                one(TokenType::Illegal, p)
            }
        } else if c == '(' {
            one(TokenType::OpenParenthesis, p)
        } else if c == ')' {
            one(TokenType::CloseParenthesis, p)
        } else if c == '{' {
            one(TokenType::OpenBrace, p)
        } else if c == '}' {
            one(TokenType::CloseBrace, p)
        } else if c == ';' {
            one(TokenType::Semicolon, p)
        } else if c == '.' {
            one_or_two(cs, p, TokenType::Dot, '.', TokenType::DotDot)
        } else if c == ':' {
            one(TokenType::Colon, p)
        } else if c == '-' {
            one(TokenType::Hyphen, p)
        } else if c == ',' {
            one(TokenType::Comma, p)
        } else if c == '=' {
            one(TokenType::Equals, p)
        } else if c == '&' {
            one_or_two(cs, p, TokenType::Ampersand, '&', TokenType::DoubleAmpersand)
        } else if c == '|' {
            if p + 1 < cs.len() && cs[p + 1] == '=' {
                (TokenType::PipeEquals, p, p + 2)
            } else {
                one_or_two(cs, p, TokenType::Pipe, '|', TokenType::DoublePipe)
            }
        } else if c == '^' {
            one(TokenType::Caret, p)
        } else if c == '~' {
            one(TokenType::Tilde, p)
        } else if c == '!' {
            one(TokenType::Exclamation, p)
        } else if white_space(c) {
            one(TokenType::Whitespace, p)
        } else {
            one(TokenType::Illegal, p)
        }
    }
}

/// The end of a run of illegal tokens that continues from `j`.
pub open spec fn illegal_run_end(cs: Seq<char>, j: int) -> int
    decreases cs.len() - j,
{
    let (ty, i, e) = lex_step(cs, j);
    if ty == TokenType::Illegal && j < e <= cs.len() {
        illegal_run_end(cs, e)
    } else {
        j
    }
}

/// The tokens from character `p` to the end of the input, `Eof` last, each
/// as its type and the characters it covers.
pub open spec fn lex_from(cs: Seq<char>, p: int) -> Seq<(TokenType, int, int)>
    decreases cs.len() - p,
{
    let (ty, i, j) = lex_step(cs, p);
    if ty == TokenType::Eof || !(p < j <= cs.len()) {
        seq![(TokenType::Eof, i, i)]
    } else if ty == TokenType::Illegal {
        let e = illegal_run_end(cs, j);
        if j <= e <= cs.len() {
            seq![(TokenType::Illegal, i, e)] + lex_from(cs, e)
        } else {
            seq![(TokenType::Illegal, i, j)]
        }
    } else {
        seq![(ty, i, j)] + lex_from(cs, j)
    }
}

/// Tokens of the text `cs` given by the characters they cover, with the
/// byte ranges of those characters; `Eof` takes the one byte position at
/// which the input ends.
pub open spec fn to_tokens(cs: Seq<char>, ts: Seq<(TokenType, int, int)>) -> Seq<Token> {
    ts.map_values(
        |t: (TokenType, int, int)|
            if t.0 == TokenType::Eof {
                Token(t.0, byte_off(cs, t.1) as usize, (byte_off(cs, t.1) + 1) as usize)
            } else {
                Token(t.0, byte_off(cs, t.1) as usize, byte_off(cs, t.2) as usize)
            },
    )
}

/// The tokens of the text `cs`, with the byte ranges they cover.
pub open spec fn spec_tokenize(cs: Seq<char>) -> Seq<Token> {
    to_tokens(cs, lex_from(cs, 0))
}

} // verus!

verus! {

/// The end of the run of name characters from `p`.
fn word_end(cs: &Vec<char>, p: usize) -> (r: usize)
    requires
        p <= cs@.len(),
    ensures
        r == p + word_run(cs@, p as int),
        r <= cs@.len(),
{
    let mut q = p;
    while q < cs.len() && ((('a' <= cs[q] && cs[q] <= 'z') || ('A' <= cs[q] && cs[q] <= 'Z') || cs[q]
        == '_') || ('0' <= cs[q] && cs[q] <= '9'))
        invariant
            p <= q <= cs@.len(),
            p + word_run(cs@, p as int) == q + word_run(cs@, q as int),
        decreases cs@.len() - q,
    {
        q = q + 1;
    }
    q
}

/// The end of the run of decimal digits from `p`.
fn digit_end(cs: &Vec<char>, p: usize) -> (r: usize)
    requires
        p <= cs@.len(),
    ensures
        r == p + digit_run(cs@, p as int),
        r <= cs@.len(),
{
    let mut q = p;
    while q < cs.len() && '0' <= cs[q] && cs[q] <= '9'
        invariant
            p <= q <= cs@.len(),
            p + digit_run(cs@, p as int) == q + digit_run(cs@, q as int),
        decreases cs@.len() - q,
    {
        q = q + 1;
    }
    q
}

/// The end of the run of hexadecimal digits from `p`.
fn hex_end(cs: &Vec<char>, p: usize) -> (r: usize)
    requires
        p <= cs@.len(),
    ensures
        r == p + hex_run(cs@, p as int),
        r <= cs@.len(),
{
    let mut q = p;
    while q < cs.len() && (('0' <= cs[q] && cs[q] <= '9') || ('a' <= cs[q] && cs[q] <= 'f') || (
    'A' <= cs[q] && cs[q] <= 'F'))
        invariant
            p <= q <= cs@.len(),
            p + hex_run(cs@, p as int) == q + hex_run(cs@, q as int),
        decreases cs@.len() - q,
    {
        q = q + 1;
    }
    q
}

/// The end of the run of characters other than a line feed from `p`.
fn line_end(cs: &Vec<char>, p: usize) -> (r: usize)
    requires
        p <= cs@.len(),
    ensures
        r == p + line_run(cs@, p as int),
        r <= cs@.len(),
{
    let mut q = p;
    while q < cs.len() && cs[q] != '\n'
        invariant
            p <= q <= cs@.len(),
            p + line_run(cs@, p as int) == q + line_run(cs@, q as int),
        decreases cs@.len() - q,
    {
        q = q + 1;
    }
    q
}

/// The end of the string literal whose body starts at `q0`, if it is closed.
fn find_string_end(cs: &Vec<char>, q0: usize) -> (r: Option<usize>)
    requires
        q0 <= cs@.len(),
    ensures
        match r {
            Some(e) => string_end(cs@, q0 as int) == Some(e as int) && q0 < e <= cs@.len(),
            None => string_end(cs@, q0 as int) is None,
        },
{
    let mut q = q0;
    while q < cs.len()
        invariant
            q0 <= q <= cs@.len() + 1,
            string_end(cs@, q as int) == string_end(cs@, q0 as int),
        decreases cs@.len() + 1 - q,
    {
        if cs[q] == '"' {
            return Some(q + 1);
        } else if cs[q] == '\\' {
            if q + 1 < cs.len() && cs[q + 1] != '\n' {
                q = q + 2;
            } else {
                return None;
            }
        } else {
            q = q + 1;
        }
    }
    None
}

/// Whether the lexer skips `c`.
fn skipped(c: char) -> (r: bool)
    ensures
        r == skipped_char(c),
{
    let u = c as u32;
    (1 <= u && u <= 8) || (14 <= u && u <= 31)
}

/// Reads the next token from character `p0`.
fn lex_token(cs: &Vec<char>, p0: usize) -> (r: (TokenType, usize, usize))
    requires
        p0 <= cs@.len(),
    ensures
        (r.0, r.1 as int, r.2 as int) == lex_step(cs@, p0 as int),
        p0 <= r.1 <= r.2 <= cs@.len(),
        r.0 == TokenType::Eof ==> r.1 == r.2,
        r.0 != TokenType::Eof ==> r.1 < r.2,
{
    let n = cs.len();
    let mut p = p0;
    while p < n && skipped(cs[p])
        invariant
            p0 <= p <= n,
            n == cs@.len(),
            lex_step(cs@, p as int) == lex_step(cs@, p0 as int),
        decreases n - p,
    {
        p = p + 1;
    }
    if p >= n || cs[p] == '\0' {
        return (TokenType::Eof, p, p);
    }
    let c = cs[p];
    if ('a' <= c && c <= 'z') || ('A' <= c && c <= 'Z') || c == '_' {
        let e = word_end(cs, p + 1);
        let ty = if e - p == 4 && cs[p] == 't' && cs[p + 1] == 'r' && cs[p + 2] == 'u' && cs[p + 3]
            == 'e' {
            assert(cs@.subrange(p as int, e as int) =~= seq!['t', 'r', 'u', 'e']);
            TokenType::True
        } else if e - p == 5 && cs[p] == 'f' && cs[p + 1] == 'a' && cs[p + 2] == 'l' && cs[p + 3]
            == 's' && cs[p + 4] == 'e' {
            assert(cs@.subrange(p as int, e as int) =~= seq!['f', 'a', 'l', 's', 'e']);
            TokenType::False
        } else {
            proof {
                let w = cs@.subrange(p as int, e as int);
                if w == seq!['t', 'r', 'u', 'e'] {
                    assert(w.len() == 4 && w[0] == 't' && w[1] == 'r' && w[2] == 'u' && w[3] == 'e');
                }
                if w == seq!['f', 'a', 'l', 's', 'e'] {
                    assert(w.len() == 5 && w[0] == 'f' && w[1] == 'a' && w[2] == 'l' && w[3] == 's'
                        && w[4] == 'e');
                }
            }
            TokenType::Name
        };
        return (ty, p, e);
    }
    if '0' <= c && c <= '9' {
        if c == '0' && p + 1 < n && (cs[p + 1] == 'x' || cs[p + 1] == 'X') {
            let h = hex_end(cs, p + 2);
            if h > p + 2 {
                return (TokenType::Integer, p, h);
            }
        }
        let e = digit_end(cs, p);
        return (TokenType::Integer, p, e);
    }
    if c == '"' {
        return match find_string_end(cs, p + 1) {
            Some(e) => (TokenType::String, p, e),
            None => (TokenType::Illegal, p, p + 1),
        };
    }
    if c == '/' {
        if p + 1 < n && cs[p + 1] == '/' {
            let e = line_end(cs, p + 2);
            return (TokenType::LineComment, p, e);
        }
        return (TokenType::Illegal, p, p + 1);
    }
    let two = p + 1 < n;
    let ty = if c == '(' {
        TokenType::OpenParenthesis
    } else if c == ')' {
        TokenType::CloseParenthesis
    } else if c == '{' {
        TokenType::OpenBrace
    } else if c == '}' {
        TokenType::CloseBrace
    } else if c == ';' {
        TokenType::Semicolon
    } else if c == '.' {
        if two && cs[p + 1] == '.' {
            return (TokenType::DotDot, p, p + 2);
        }
        TokenType::Dot
    } else if c == ':' {
        TokenType::Colon
    } else if c == '-' {
        TokenType::Hyphen
    } else if c == ',' {
        TokenType::Comma
    } else if c == '=' {
        TokenType::Equals
    } else if c == '&' {
        if two && cs[p + 1] == '&' {
            return (TokenType::DoubleAmpersand, p, p + 2);
        }
        TokenType::Ampersand
    } else if c == '|' {
        if two && cs[p + 1] == '=' {
            return (TokenType::PipeEquals, p, p + 2);
        }
        if two && cs[p + 1] == '|' {
            return (TokenType::DoublePipe, p, p + 2);
        }
        TokenType::Pipe
    } else if c == '^' {
        TokenType::Caret
    } else if c == '~' {
        TokenType::Tilde
    } else if c == '!' {
        TokenType::Exclamation
    } else if is_white_space(c) {
        TokenType::Whitespace
    } else {
        TokenType::Illegal
    };
    (ty, p, p + 1)
}

} // verus!

verus! {

/// Runs the lexer on `text` and collects all of its tokens, `Eof` last,
/// continuing past illegal input.
pub fn tokenize(text: &str) -> (r: Vec<Token>)
    requires
        byte_off(text@, text@.len() as int) < usize::MAX,
    ensures
        r@ == spec_tokenize(text@),
{
    let cs = chars_of(text);
    let n = cs.len();
    let mut offs: Vec<usize> = Vec::new();
    offs.push(0);
    let mut k: usize = 0;
    while k < n
        invariant
            k <= n,
            n == cs@.len(),
            offs@.len() == k + 1,
            forall|m: int| 0 <= m <= k ==> offs@[m] == byte_off(cs@, m),
            byte_off(cs@, n as int) < usize::MAX,
        decreases n - k,
    {
        proof {
            lemma_byte_off_mono(cs@, k + 1, n as int);
        }
        let w = char_width(cs[k]) as usize;
        let next = offs[k] + w;
        offs.push(next);
        k = k + 1;
    }
    let mut tokens: Vec<Token> = Vec::new();
    let mut p: usize = 0;
    assert(to_tokens(cs@, lex_from(cs@, 0)) =~= tokens@ + to_tokens(cs@, lex_from(cs@, 0)));
    loop
        invariant_except_break
            p <= n,
            to_tokens(cs@, lex_from(cs@, 0)) == tokens@ + to_tokens(cs@, lex_from(cs@, p as int)),
        invariant
            n == cs@.len(),
            offs@.len() == n + 1,
            forall|m: int| 0 <= m <= n ==> offs@[m] == byte_off(cs@, m),
            byte_off(cs@, n as int) < usize::MAX,
        ensures
            tokens@ == to_tokens(cs@, lex_from(cs@, 0)),
        decreases n - p,
    {
        let (ty, i, j) = lex_token(&cs, p);
        if ty == TokenType::Eof {
            proof {
                lemma_byte_off_mono(cs@, i as int, n as int);
            }
            let t = Token::new(TokenType::Eof, offs[i]..offs[i] + 1);
            let ghost before = tokens@;
            tokens.push(t);
            assert(to_tokens(cs@, lex_from(cs@, p as int)) =~= seq![t]);
            assert(tokens@ =~= before + seq![t]);
            break;
        }
        if ty == TokenType::Illegal {
            let mut e = j;
            loop
                invariant
                    j <= e <= n,
                    n == cs@.len(),
                    illegal_run_end(cs@, e as int) == illegal_run_end(cs@, j as int),
                ensures
                    j <= e <= n,
                    illegal_run_end(cs@, j as int) == e,
                decreases n - e,
            {
                let (ty2, _i2, j2) = lex_token(&cs, e);
                if ty2 == TokenType::Illegal {
                    e = j2;
                } else {
                    break;
                }
            }
            let t = Token::new(TokenType::Illegal, offs[i]..offs[e]);
            let ghost before = tokens@;
            tokens.push(t);
            let ghost rest = lex_from(cs@, e as int);
            assert(lex_from(cs@, p as int) == seq![(TokenType::Illegal, i as int, e as int)] + rest);
            assert(to_tokens(cs@, lex_from(cs@, p as int)) =~= seq![t] + to_tokens(cs@, rest));
            assert(before + to_tokens(cs@, lex_from(cs@, p as int)) =~= tokens@ + to_tokens(cs@, rest));
            p = e;
        } else {
            let t = Token::new(ty, offs[i]..offs[j]);
            let ghost before = tokens@;
            tokens.push(t);
            let ghost rest = lex_from(cs@, j as int);
            assert(lex_from(cs@, p as int) == seq![(ty, i as int, j as int)] + rest);
            assert(to_tokens(cs@, lex_from(cs@, p as int)) =~= seq![t] + to_tokens(cs@, rest));
            assert(before + to_tokens(cs@, lex_from(cs@, p as int)) =~= tokens@ + to_tokens(cs@, rest));
            p = j;
        }
    }
    tokens
}

} // verus!

verus! {

/// Only skipped control characters stand between positions `a` and `b`.
pub open spec fn skipped_between(cs: Seq<char>, a: int, b: int) -> bool {
    a <= b && forall|m: int| a <= m < b ==> skipped_char(#[trigger] cs[m])
}

/// Runs of characters stay within the input.
proof fn lemma_runs(cs: Seq<char>, p: int)
    requires
        0 <= p <= cs.len(),
    ensures
        p + word_run(cs, p) <= cs.len(),
        p + digit_run(cs, p) <= cs.len(),
        p + hex_run(cs, p) <= cs.len(),
        p + line_run(cs, p) <= cs.len(),
    decreases cs.len() - p,
{
    if p < cs.len() {
        lemma_runs(cs, p + 1);
    }
}

/// A string literal ends within the input, after its body starts.
proof fn lemma_string_end(cs: Seq<char>, q: int)
    requires
        0 <= q,
    ensures
        string_end(cs, q) matches Some(e) ==> q < e <= cs.len(),
    decreases cs.len() - q,
{
    if 0 <= q < cs.len() && cs[q] != '"' {
        if cs[q] == '\\' {
            if q + 1 < cs.len() && cs[q + 1] != '\n' {
                lemma_string_end(cs, q + 2);
            }
        } else {
            lemma_string_end(cs, q + 1);
        }
    }
}

/// A token read from `p` starts after skipped characters only; `Eof`
/// stands at the end of the input or at a NUL character and covers
/// nothing, and any other token covers at least one character.
pub proof fn lemma_lex_step(cs: Seq<char>, p: int)
    requires
        0 <= p <= cs.len(),
    ensures
        skipped_between(cs, p, lex_step(cs, p).1),
        lex_step(cs, p).0 == TokenType::Eof ==> lex_step(cs, p).1 == lex_step(cs, p).2 && (
        lex_step(cs, p).1 == cs.len() || cs[lex_step(cs, p).1] == '\0'),
        lex_step(cs, p).0 != TokenType::Eof ==> lex_step(cs, p).1 < lex_step(cs, p).2 <= cs.len(),
        lex_step(cs, p).1 <= cs.len(),
    decreases cs.len() - p,
{
    if p < cs.len() && cs[p] != '\0' {
        if skipped_char(cs[p]) {
            lemma_lex_step(cs, p + 1);
        } else {
            lemma_runs(cs, p);
            lemma_runs(cs, p + 1);
            if p + 2 <= cs.len() {
                lemma_runs(cs, p + 2);
            }
            lemma_string_end(cs, p + 1);
        }
    }
}

/// A run of illegal tokens ends within the input, after it starts.
proof fn lemma_illegal_run_end(cs: Seq<char>, j: int)
    requires
        0 <= j <= cs.len(),
    ensures
        j <= illegal_run_end(cs, j) <= cs.len(),
    decreases cs.len() - j,
{
    let (ty, i, e) = lex_step(cs, j);
    if ty == TokenType::Illegal && j < e <= cs.len() {
        lemma_illegal_run_end(cs, e);
    }
}

/// The lexer loses nothing but skipped control characters: its tokens
/// follow one another with only such characters between them, every token
/// but the last covers at least one character, and the last is `Eof`, at
/// the end of the input or at a NUL character.
pub proof fn lemma_lex_from(cs: Seq<char>, p: int)
    requires
        0 <= p <= cs.len(),
    ensures
        lex_from(cs, p).len() >= 1,
        skipped_between(cs, p, lex_from(cs, p)[0].1),
        lex_from(cs, p).last().0 == TokenType::Eof,
        lex_from(cs, p).last().1 == lex_from(cs, p).last().2,
        lex_from(cs, p).last().1 == cs.len() || cs[lex_from(cs, p).last().1] == '\0',
        forall|k: int|
            #![trigger lex_from(cs, p)[k]]
            0 <= k < lex_from(cs, p).len() - 1 ==> {
                let t = lex_from(cs, p)[k];
                &&& t.0 != TokenType::Eof
                &&& t.1 < t.2
                &&& skipped_between(cs, t.2, lex_from(cs, p)[k + 1].1)
            },
    decreases cs.len() - p,
{
    lemma_lex_step(cs, p);
    let (ty, i, j) = lex_step(cs, p);
    if ty == TokenType::Eof || !(p < j <= cs.len()) {
    } else {
        let e = if ty == TokenType::Illegal {
            lemma_illegal_run_end(cs, j);
            illegal_run_end(cs, j)
        } else {
            j
        };
        lemma_lex_from(cs, e);
        let rest = lex_from(cs, e);
        let ts = lex_from(cs, p);
        assert(ts == seq![(ty, i, e)] + rest);
        assert forall|k: int|
            #![trigger ts[k]]
            0 <= k < ts.len() - 1 implies {
                let t = ts[k];
                &&& t.0 != TokenType::Eof
                &&& t.1 < t.2
                &&& skipped_between(cs, t.2, ts[k + 1].1)
            } by {
            if k > 0 {
                assert(ts[k] == rest[k - 1]);
                assert(ts[k + 1] == rest[k]);
            }
        }
    }
}

} // verus!
