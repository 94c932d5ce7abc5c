//! Reading the characters of a source file with their byte positions, and
//! reading tokens from them.

use vstd::prelude::*;
use vstd::string::*;
use vstd::utf8::*;
use crate::syntax::char_lexer::name_run;
use crate::syntax::lex::span::ByteSpan;
use crate::syntax::lex::token::{DelimiterType, SpecToken, Token};
use crate::text::{chars_of, is_alphanumeric, is_white_space, utf8_str, white_space};

verus! {

/// A range of byte positions in the code map.
pub type TextRange = ByteSpan;

/// The number of bytes that encode `c` in UTF-8.
pub open spec fn utf8_width(c: char) -> int {
    let u = c as u32;
    if u < 0x80 {
        1
    } else if u < 0x800 {
        2
    } else if u < 0x10000 {
        3
    } else {
        4
    }
}

/// The number of bytes that encode the first `i` characters of `cs`.
pub open spec fn byte_off(cs: Seq<char>, i: int) -> int
    decreases i,
{
    if i <= 0 {
        0
    } else {
        byte_off(cs, i - 1) + utf8_width(cs[i - 1])
    }
}

/// Byte offsets grow with the number of characters.
pub proof fn lemma_byte_off_mono(cs: Seq<char>, i: int, j: int)
    requires
        0 <= i <= j,
    ensures
        0 <= byte_off(cs, i) <= byte_off(cs, j),
    decreases j,
{
    if j > 0 {
        if i == j {
            lemma_byte_off_mono(cs, j - 1, j - 1);
        } else {
            lemma_byte_off_mono(cs, i, j - 1);
        }
    }
}

/// A character is encoded in as many bytes as `utf8_width` gives.
pub proof fn lemma_encode_scalar_len(c: char)
    ensures
        encode_scalar(c as u32).len() == utf8_width(c),
{
    char_is_scalar(c);
}

/// The encoding of two runs of characters is the encoding of the first
/// followed by that of the second.
pub proof fn lemma_encode_concat(a: Seq<char>, b: Seq<char>)
    ensures
        encode_utf8(a + b) == encode_utf8(a) + encode_utf8(b),
    decreases a.len(),
{
    if a.len() == 0 {
        assert(a + b =~= b);
        assert(encode_utf8(a) + encode_utf8(b) =~= encode_utf8(b));
    } else {
        assert((a + b).drop_first() =~= a.drop_first() + b);
        lemma_encode_concat(a.drop_first(), b);
        assert(encode_utf8(a + b) =~= encode_utf8(a) + encode_utf8(b));
    }
}

/// The first `i` characters of `cs` are encoded in `byte_off(cs, i)` bytes.
pub proof fn lemma_encode_len(cs: Seq<char>, i: int)
    requires
        0 <= i <= cs.len(),
    ensures
        encode_utf8(cs.take(i)).len() == byte_off(cs, i),
    decreases i,
{
    if i > 0 {
        lemma_encode_len(cs, i - 1);
        assert(cs.take(i) =~= cs.take(i - 1) + seq![cs[i - 1]]);
        lemma_encode_concat(cs.take(i - 1), seq![cs[i - 1]]);
        lemma_encode_scalar_len(cs[i - 1]);
        let one = seq![cs[i - 1]];
        assert(one.drop_first() =~= Seq::<char>::empty());
        assert(encode_utf8(one).len() == utf8_width(cs[i - 1])) by {
            reveal_with_fuel(encode_utf8, 2);
        }
    } else {
        assert(cs.take(i) =~= Seq::<char>::empty());
        reveal_with_fuel(encode_utf8, 1);
    }
}

/// The bytes between the offsets of characters `i` and `j` encode exactly
/// the characters from `i` to `j`.
pub proof fn lemma_encode_slice(cs: Seq<char>, i: int, j: int)
    requires
        0 <= i <= j <= cs.len(),
    ensures
        0 <= byte_off(cs, i) <= byte_off(cs, j) <= encode_utf8(cs).len(),
        encode_utf8(cs).subrange(byte_off(cs, i), byte_off(cs, j)) == encode_utf8(
            cs.subrange(i, j),
        ),
{
    lemma_encode_len(cs, i);
    lemma_encode_len(cs, j);
    assert(cs =~= cs.take(i) + cs.subrange(i, j) + cs.skip(j));
    assert(cs.take(j) =~= cs.take(i) + cs.subrange(i, j));
    lemma_encode_concat(cs.take(i), cs.subrange(i, j));
    lemma_encode_concat(cs.take(j), cs.skip(j));
    assert(cs.take(j) + cs.skip(j) =~= cs);
    assert(encode_utf8(cs).subrange(byte_off(cs, i), byte_off(cs, j)) =~= encode_utf8(
        cs.subrange(i, j),
    ));
}

/// The number of bytes that encode `c` in UTF-8 (`char::len_utf8`).
pub fn char_width(c: char) -> (r: u32)
    ensures
        r == utf8_width(c),
{
    let u = c as u32;
    if u < 0x80 {
        1
    } else if u < 0x800 {
        2
    } else if u < 0x10000 {
        3
    } else {
        4
    }
}

/// A character associated with the range of its byte positions.
#[derive(Copy, Clone, Debug, PartialEq, Eq, Structural)]
pub struct IndexedChar(pub TextRange, pub char);

/// A string associated with the range of its byte positions.
#[derive(Copy, Clone, Debug, PartialEq, Eq)]
pub struct IndexedString<'a>(pub TextRange, pub &'a str);

impl IndexedChar {
    /// Get the byte range of this character in its source data.
    pub fn position(&self) -> (r: TextRange)
        ensures
            r == self.0,
    {
        self.0
    }

    /// Get the character value.
    pub fn char(&self) -> (r: char)
        ensures
            r == self.1,
    {
        self.1
    }
}

/// The span of the characters `i..j` of `cs` in a file whose first byte
/// has position `base`.
pub open spec fn text_span(cs: Seq<char>, base: u32, i: int, j: int) -> ByteSpan {
    ByteSpan { start: (base + byte_off(cs, i)) as u32, end: (base + byte_off(cs, j)) as u32 }
}

/// The characters that begin a name.
pub open spec fn name_start(c: char) -> bool {
    ('a' <= c <= 'z') || ('A' <= c <= 'Z') || c == '_'
}

/// The next token from character `p` of `cs`: the token and the characters
/// it covers.  White space is skipped; at the end of the input the token
/// is `Eof`.
pub open spec fn text_step(cs: Seq<char>, p: int) -> (SpecToken, int, int)
    decreases cs.len() - p,
{
    if p < 0 || p >= cs.len() {
        (SpecToken::Eof, p, p)
    } else {
        let c = cs[p];
        if c == ';' {
            (SpecToken::Semicolon, p, p + 1)
        } else if c == '.' {
            (SpecToken::Dot, p, p + 1)
        } else if c == '(' {
            (SpecToken::OpenDelimiter(DelimiterType::Parenthesis), p, p + 1)
        } else if c == ')' {
            (SpecToken::CloseDelimiter(DelimiterType::Parenthesis), p, p + 1)
        } else if c == '{' {
            (SpecToken::OpenDelimiter(DelimiterType::Brace), p, p + 1)
        } else if c == '}' {
            (SpecToken::CloseDelimiter(DelimiterType::Brace), p, p + 1)
        } else if c == '^' {
            (SpecToken::BitwiseXor, p, p + 1)
        } else if c == '~' {
            (SpecToken::BitwiseNot, p, p + 1)
        } else if c == '!' {
            (SpecToken::LogicalNot, p, p + 1)
        } else if c == ',' {
            (SpecToken::Comma, p, p + 1)
        } else if c == '&' {
            if p + 1 < cs.len() && cs[p + 1] == '&' {
                (SpecToken::LogicalAnd, p, p + 2)
            } else {
                (SpecToken::BitwiseAnd, p, p + 1)
            }
        } else if c == '|' {
            if p + 1 < cs.len() && cs[p + 1] == '|' {
                (SpecToken::LogicalOr, p, p + 2)
            } else if p + 1 < cs.len() && cs[p + 1] == '=' {
                (SpecToken::SetModifier, p, p + 2)
            } else {
                (SpecToken::BitwiseOr, p, p + 1)
            }
        } else if name_start(c) {
            let j = p + 1 + name_run(cs, p + 1);
            (SpecToken::Name(cs.subrange(p, j)), p, j)
        } else if white_space(c) {
            text_step(cs, p + 1)
        } else {
            (SpecToken::Illegal(c), p, p + 1)
        }
    }
}

/// A UTF-8 text reader that returns characters with their byte positions.
pub struct TextReader<'input> {
    src: &'input str,
    chars: Vec<char>,
    base: u32,
    pos: usize,
    byte: u32,
}

impl<'input> TextReader<'input> {
    /// The characters of the source.
    pub closed spec fn spec_chars(&self) -> Seq<char> {
        self.src@
    }

    /// The number of characters read so far.
    pub closed spec fn spec_pos(&self) -> int {
        self.pos as int
    }

    /// The position of the first byte of the source in the code map.
    pub closed spec fn spec_base(&self) -> u32 {
        self.base
    }

    /// The bytes of the source.
    pub closed spec fn spec_bytes(&self) -> Seq<u8> {
        self.src.spec_bytes()
    }

    /// The reader is consistent with its source, whose positions fit in
    /// the code map.
    pub closed spec fn wf(&self) -> bool {
        &&& self.chars@ == self.src@
        &&& self.pos <= self.chars@.len()
        &&& self.byte == self.base + byte_off(self.chars@, self.pos as int)
        &&& self.base + byte_off(self.chars@, self.chars@.len() as int) <= u32::MAX
    }

    /// Create a reader over `src`, a file whose first byte has position
    /// `base` in its code map.
    pub fn new(src: &'input str, base: u32) -> (r: Self)
        requires
            base + byte_off(src@, src@.len() as int) <= u32::MAX,
        ensures
            r.wf(),
            r.spec_chars() == src@,
            r.spec_pos() == 0,
            r.spec_base() == base,
            r.spec_bytes() == src.spec_bytes(),
    {
        TextReader { src, chars: chars_of(src), base, pos: 0, byte: base }
    }

    /// The text of the source between the code-map positions of `range`,
    /// which lies within the source and cuts it at character boundaries.
    pub fn range(&self, range: TextRange) -> (r: &'input str)
        requires
            self.spec_base() <= range.start <= range.end,
            range.end <= self.spec_base() + self.spec_bytes().len(),
            valid_utf8(
                self.spec_bytes().subrange(
                    range.start - self.spec_base(),
                    range.end - self.spec_base(),
                ),
            ),
        ensures
            r.spec_bytes() == self.spec_bytes().subrange(
                range.start - self.spec_base(),
                range.end - self.spec_base(),
            ),
    {
        let bytes = self.src.as_bytes();
        let start = (range.start - self.base) as usize;
        let end = (range.end - self.base) as usize;
        match utf8_str(&bytes[start..end]) {
            Some(t) => t,
            None => self.src,
        }
    }

    /// The next character, if any, without advancing the reader.
    pub fn peek(&self) -> (r: Option<IndexedChar>)
        requires
            self.wf(),
        ensures
            r == if self.spec_pos() < self.spec_chars().len() {
                Some(
                    IndexedChar(
                        text_span(
                            self.spec_chars(),
                            self.spec_base(),
                            self.spec_pos(),
                            self.spec_pos() + 1,
                        ),
                        self.spec_chars()[self.spec_pos()],
                    ),
                )
            } else {
                None
            },
    {
        if self.pos < self.chars.len() {
            let c = self.chars[self.pos];
            proof {
                lemma_byte_off_mono(self.chars@, self.pos + 1, self.chars@.len() as int);
            }
            let end = self.byte + char_width(c);
            Some(IndexedChar(ByteSpan::new(self.byte, end), c))
        } else {
            None
        }
    }

    /// Reads the next character, if any.
    pub fn next(&mut self) -> (r: Option<IndexedChar>)
        requires
            old(self).wf(),
        ensures
            final(self).wf(),
            final(self).spec_chars() == old(self).spec_chars(),
            final(self).spec_base() == old(self).spec_base(),
            final(self).spec_bytes() == old(self).spec_bytes(),
            r == if old(self).spec_pos() < old(self).spec_chars().len() {
                Some(
                    IndexedChar(
                        text_span(
                            old(self).spec_chars(),
                            old(self).spec_base(),
                            old(self).spec_pos(),
                            old(self).spec_pos() + 1,
                        ),
                        old(self).spec_chars()[old(self).spec_pos()],
                    ),
                )
            } else {
                None
            },
            final(self).spec_pos() == if old(self).spec_pos() < old(self).spec_chars().len() {
                old(self).spec_pos() + 1
            } else {
                old(self).spec_pos()
            },
    {
        let r = self.peek();
        if self.pos < self.chars.len() {
            let c = self.chars[self.pos];
            proof {
                lemma_byte_off_mono(self.chars@, self.pos + 1, self.chars@.len() as int);
            }
            self.byte = self.byte + char_width(c);
            self.pos = self.pos + 1;
        }
        r
    }
}

} // verus!

verus! {

impl<'input> TextReader<'input> {
    /// Reads the next token and its span, skipping white space.  At the end
    /// of the input the token is `Eof` with the default span.
    pub fn read_next_token(&mut self) -> (r: (Token, ByteSpan))
        requires
            old(self).wf(),
        ensures
            final(self).wf(),
            final(self).spec_chars() == old(self).spec_chars(),
            final(self).spec_base() == old(self).spec_base(),
            ({
                let (t, i, j) = text_step(old(self).spec_chars(), old(self).spec_pos());
                &&& r.0@ == t
                &&& r.1 == if t is Eof {
                    ByteSpan { start: 0, end: 0 }
                } else {
                    text_span(old(self).spec_chars(), old(self).spec_base(), i, j)
                }
                &&& final(self).spec_pos() == j
            }),
    {
        let ghost cs = self.spec_chars();
        let ghost base = self.spec_base();
        let ghost p0 = self.spec_pos();
        loop
            invariant
                self.wf(),
                self.spec_chars() == cs,
                self.spec_base() == base,
                cs == old(self).spec_chars(),
                base == old(self).spec_base(),
                p0 == old(self).spec_pos(),
                p0 <= self.spec_pos(),
                text_step(cs, self.spec_pos()) == text_step(cs, p0),
            decreases cs.len() - self.spec_pos(),
        {
            let next = match self.next() {
                Some(ch) => ch,
                None => {
                    return (Token::Eof, ByteSpan::default());
                },
            };
            let position = next.position();
            let c = next.char();
            if c == ';' {
                return (Token::Semicolon, position);
            } else if c == '.' {
                return (Token::Dot, position);
            } else if c == '(' {
                return (Token::OpenDelimiter(DelimiterType::Parenthesis), position);
            } else if c == ')' {
                return (Token::CloseDelimiter(DelimiterType::Parenthesis), position);
            } else if c == '{' {
                return (Token::OpenDelimiter(DelimiterType::Brace), position);
            } else if c == '}' {
                return (Token::CloseDelimiter(DelimiterType::Brace), position);
            } else if c == '^' {
                return (Token::BitwiseXor, position);
            } else if c == '~' {
                return (Token::BitwiseNot, position);
            } else if c == '!' {
                return (Token::LogicalNot, position);
            } else if c == ',' {
                return (Token::Comma, position);
            } else if c == '&' {
                match self.peek() {
                    Some(IndexedChar(next_pos, '&')) => {
                        self.next();
                        return (Token::LogicalAnd, position.with_end(next_pos.end()));
                    },
                    _ => return (Token::BitwiseAnd, position),
                }
            } else if c == '|' {
                match self.peek() {
                    Some(IndexedChar(next_pos, '|')) => {
                        self.next();
                        return (Token::LogicalOr, position.with_end(next_pos.end()));
                    },
                    Some(IndexedChar(next_pos, '=')) => {
                        self.next();
                        return (Token::SetModifier, position.with_end(next_pos.end()));
                    },
                    _ => return (Token::BitwiseOr, position),
                }
            } else if ('a' <= c && c <= 'z') || ('A' <= c && c <= 'Z') || c == '_' {
                return self.read_name(position);
            } else if is_white_space(c) {
                continue;
            } else {
                return (Token::Illegal(c), position);
            }
        }
    }

    /// Reads the rest of a name whose first character, just read, has the
    /// byte range `position`.
    fn read_name(&mut self, position: TextRange) -> (r: (Token, ByteSpan))
        requires
            old(self).wf(),
            old(self).spec_pos() >= 1,
            position == text_span(
                old(self).spec_chars(),
                old(self).spec_base(),
                old(self).spec_pos() - 1,
                old(self).spec_pos(),
            ),
        ensures
            final(self).wf(),
            final(self).spec_chars() == old(self).spec_chars(),
            final(self).spec_base() == old(self).spec_base(),
            ({
                let cs = old(self).spec_chars();
                let i = old(self).spec_pos() - 1;
                let j = old(self).spec_pos() + name_run(cs, old(self).spec_pos());
                &&& r.0@ == SpecToken::Name(cs.subrange(i, j))
                &&& r.1 == text_span(cs, old(self).spec_base(), i, j)
                &&& final(self).spec_pos() == j
            }),
    {
        let ghost cs = self.spec_chars();
        let ghost base = self.spec_base();
        let ghost p1 = self.spec_pos();
        let start = self.pos - 1;
        let mut last_pos = position;
        loop
            invariant
                self.wf(),
                self.spec_chars() == cs,
                self.spec_base() == base,
                cs == old(self).spec_chars(),
                base == old(self).spec_base(),
                p1 == old(self).spec_pos(),
                start == p1 - 1,
                p1 <= self.spec_pos() <= cs.len(),
                p1 + name_run(cs, p1) == self.spec_pos() + name_run(cs, self.spec_pos()),
                last_pos == text_span(cs, base, self.spec_pos() - 1, self.spec_pos()),
            ensures
                name_run(cs, self.spec_pos()) == 0,
            decreases cs.len() - self.spec_pos(),
        {
            match self.peek() {
                Some(IndexedChar(pos, ch)) => {
                    if is_alphanumeric(ch) || ch == '_' {
                        self.next();
                        last_pos = pos;
                    } else {
                        break;
                    }
                },
                None => break,
            }
        }
        proof {
            lemma_byte_off_mono(cs, start as int, self.pos - 1);
            lemma_byte_off_mono(cs, start + 1, self.pos as int);
            lemma_byte_off_mono(cs, self.pos as int, cs.len() as int);
            lemma_byte_off_mono(cs, start as int, start + 1);
            lemma_byte_off_mono(cs, self.pos - 1, self.pos as int);
            assert(position.start as int == base + byte_off(cs, start as int));
            assert(position.end as int == base + byte_off(cs, start + 1));
            assert(last_pos.start as int == base + byte_off(cs, self.pos - 1));
            assert(last_pos.end as int == base + byte_off(cs, self.pos as int));
        }
        let range = position.to(&last_pos);
        assert(range == text_span(cs, base, start as int, self.pos as int));
        let value = self.src.substring_char(start, self.pos).to_owned();
        assert(value@ == cs.subrange(start as int, self.pos as int));
        assert(self.pos == p1 + name_run(cs, p1));
        (Token::Name(value), range)
    }
}

} // verus!

verus! {

impl<'input> TextReader<'input> {
    /// A consistent reader has read no more than its source.
    pub proof fn lemma_pos_bounds(&self)
        requires
            self.wf(),
        ensures
            0 <= self.spec_pos() <= self.spec_chars().len(),
    {
    }
}

} // verus!
