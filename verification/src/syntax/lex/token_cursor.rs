//! Reading token trees back as a flat sequence of tokens, delimiters
//! included.

use vstd::prelude::*;
use crate::syntax::lex::span::{ByteSpan, span_of};
use crate::syntax::lex::token::{DelimiterType, SpecToken, Token, copy_token};
use crate::syntax::lex::token_tree::{SpecTree, TokenTree, lemma_trees_view_index, tree_view, trees_view};

verus! {

/// A token with its span.
pub struct TokenAndSpan(pub Token, pub ByteSpan);

impl TokenAndSpan {
    /// A copy of the token.
    pub fn token(&self) -> (r: Token)
        ensures
            r@ == self.0@,
    {
        copy_token(&self.0)
    }

    /// The span of the token.
    pub fn span(&self) -> (r: ByteSpan)
        ensures
            r == self.1,
    {
        self.1
    }

    /// The token and its span.
    pub fn consume(self) -> (r: (Token, ByteSpan))
        ensures
            r.0 == self.0,
            r.1 == self.1,
    {
        (self.0, self.1)
    }
}

/// The position after `x`, wrapping round at the top of the code map.
pub open spec fn wrap_inc(x: u32) -> u32 {
    if x == u32::MAX {
        0
    } else {
        (x + 1) as u32
    }
}

/// The position before `x`, wrapping round at the bottom of the code map.
pub open spec fn wrap_dec(x: u32) -> u32 {
    if x == 0 {
        u32::MAX
    } else {
        (x - 1) as u32
    }
}

/// The span of the opening delimiter of a group spanning `sp`: its first
/// position.
pub open spec fn open_span(sp: ByteSpan) -> ByteSpan {
    span_of(sp.start, wrap_inc(sp.start))
}

/// The span of the closing delimiter of a group spanning `sp`: its last
/// position.
pub open spec fn close_span(sp: ByteSpan) -> ByteSpan {
    span_of(wrap_dec(sp.end), sp.end)
}

/// The tokens of a tree, in order: a group yields its opening delimiter,
/// the tokens of its trees, and its closing delimiter.
pub open spec fn flatten_tree(t: SpecTree) -> Seq<(SpecToken, ByteSpan)>
    decreases t,
{
    match t {
        SpecTree::Token(sp, tok) => seq![(tok, sp)],
        SpecTree::Delimited(sp, d, tts) => seq![(SpecToken::OpenDelimiter(d), open_span(sp))]
            + flatten(tts) + seq![(SpecToken::CloseDelimiter(d), close_span(sp))],
    }
}

/// The tokens of a sequence of trees, in order.
pub open spec fn flatten(ts: Seq<SpecTree>) -> Seq<(SpecToken, ByteSpan)>
    decreases ts,
{
    if ts.len() == 0 {
        Seq::empty()
    } else {
        flatten_tree(ts[0]) + flatten(ts.subrange(1, ts.len() as int))
    }
}

/// A delimiter of a group: its token, its span, and whether it has been
/// read; or no delimiter, for the top level.
enum FrameDelimiter {
    Token(Token, ByteSpan, bool),
    Nothing,
}

/// The tokens a delimiter has still to yield.
spec fn delim_pending(f: FrameDelimiter) -> Seq<(SpecToken, ByteSpan)> {
    match f {
        FrameDelimiter::Token(tok, sp, false) => seq![(tok@, sp)],
        _ => Seq::empty(),
    }
}

impl FrameDelimiter {
    /// Reads the delimiter, if it has not been read.
    fn consume(&mut self) -> (r: Option<TokenAndSpan>)
        ensures
            *final(self) == match *old(self) {
                FrameDelimiter::Token(tok, sp, _) => FrameDelimiter::Token(tok, sp, true),
                FrameDelimiter::Nothing => FrameDelimiter::Nothing,
            },
            delim_pending(*final(self)) == Seq::<(SpecToken, ByteSpan)>::empty(),
            *old(self) matches FrameDelimiter::Token(tok, sp, false) ==> r matches Some(ts)
                && ts.0@ == tok@ && ts.1 == sp,
            !(*old(self) matches FrameDelimiter::Token(_, _, false)) ==> r is None,
            match r {
                Some(ts) => delim_pending(*old(self)) == seq![(ts.0@, ts.1)],
                None => delim_pending(*old(self)) == Seq::<(SpecToken, ByteSpan)>::empty(),
            },
    {
        match self {
            FrameDelimiter::Token(tok, sp, consumed) => {
                if *consumed {
                    None
                } else {
                    *consumed = true;
                    Some(TokenAndSpan(copy_token(tok), *sp))
                }
            },
            FrameDelimiter::Nothing => None,
        }
    }

    /// The opening delimiter of a group of kind `ty` spanning `range`.
    fn from_open_delimiter(ty: DelimiterType, range: ByteSpan) -> (r: Self)
        ensures
            delim_pending(r) == seq![(SpecToken::OpenDelimiter(ty), open_span(range))],
    {
        FrameDelimiter::Token(
            Token::OpenDelimiter(ty),
            range.with_end(range.start().wrapping_add(1)),
            false,
        )
    }

    /// The closing delimiter of a group of kind `ty` spanning `range`.
    fn from_close_delimiter(ty: DelimiterType, range: ByteSpan) -> (r: Self)
        ensures
            delim_pending(r) == seq![(SpecToken::CloseDelimiter(ty), close_span(range))],
    {
        FrameDelimiter::Token(
            Token::CloseDelimiter(ty),
            range.with_start(range.end().wrapping_sub(1)),
            false,
        )
    }
}

/// A group being read: its delimiters and the trees left in it.
struct TokenCursorFrame {
    open_delim: FrameDelimiter,
    close_delim: FrameDelimiter,
    tts: Vec<TokenTree>,
}

/// The tokens a group has still to yield.
spec fn frame_pending(f: TokenCursorFrame) -> Seq<(SpecToken, ByteSpan)> {
    delim_pending(f.open_delim) + flatten(trees_view(f.tts@)) + delim_pending(f.close_delim)
}

/// The tokens the enclosing groups have still to yield, innermost first.
spec fn stack_pending(v: Seq<TokenCursorFrame>) -> Seq<(SpecToken, ByteSpan)>
    decreases v.len(),
{
    if v.len() == 0 {
        Seq::empty()
    } else {
        frame_pending(v.last()) + stack_pending(v.drop_last())
    }
}

/// A reader of the tokens of a sequence of token trees.
pub struct TokenCursor {
    frame: TokenCursorFrame,
    stack: Vec<TokenCursorFrame>,
}

impl TokenCursor {
    /// The tokens the cursor has still to yield.
    pub closed spec fn remaining(&self) -> Seq<(SpecToken, ByteSpan)> {
        frame_pending(self.frame) + stack_pending(self.stack@)
    }

    /// The enclosing groups have all yielded their opening delimiters.
    pub closed spec fn wf(&self) -> bool {
        forall|k: int| 0 <= k < self.stack@.len() ==> delim_pending(#[trigger] self.stack@[k].open_delim)
            == Seq::<(SpecToken, ByteSpan)>::empty()
    }

    /// A cursor over the tokens of `tts`.
    pub fn new(tts: Vec<TokenTree>) -> (r: Self)
        ensures
            r.wf(),
            r.remaining() == flatten(trees_view(tts@)),
    {
        let r = TokenCursor {
            frame: TokenCursorFrame {
                open_delim: FrameDelimiter::Nothing,
                close_delim: FrameDelimiter::Nothing,
                tts,
            },
            stack: Vec::new(),
        };
        assert(r.remaining() =~= flatten(trees_view(tts@)));
        r
    }
}


impl TokenCursor {
    /// Reads the next token: the tokens of the trees in order, each group
    /// between its delimiters, and `Eof` with the default span once all
    /// are read.
    pub fn advance(&mut self) -> (r: TokenAndSpan)
        requires
            old(self).wf(),
        ensures
            final(self).wf(),
            old(self).remaining().len() > 0 ==> (r.0@, r.1) == old(self).remaining()[0]
                && final(self).remaining() == old(self).remaining().drop_first(),
            old(self).remaining().len() == 0 ==> r.0@ == SpecToken::Eof && r.1 == (ByteSpan {
                start: 0,
                end: 0,
            }) && final(self).remaining() == old(self).remaining(),
    {
        let ghost rem0 = self.remaining();
        loop
            invariant
                self.wf(),
                self.remaining() == rem0,
                rem0 == old(self).remaining(),
            decreases (if delim_pending(self.frame.open_delim).len() == 0 {
                1int
            } else {
                0int
            }), self.stack@.len(),
        {
            let ghost f0 = self.frame;
            match self.frame.open_delim.consume() {
                Some(tok) => {
                    assert(self.remaining() =~= rem0.drop_first());
                    return tok;
                },
                None => {},
            }
            if self.frame.tts.len() > 0 {
                let ghost v = self.frame.tts@;
                let tree = self.frame.tts.remove(0);
                proof {
                    lemma_trees_view_index(v);
                    lemma_trees_view_index(self.frame.tts@);
                    assert(trees_view(self.frame.tts@) =~= trees_view(v).subrange(1, v.len() as int));
                    assert(trees_view(v)[0] == tree_view(tree));
                    assert(flatten(trees_view(v)) == flatten_tree(tree_view(tree)) + flatten(
                        trees_view(self.frame.tts@),
                    ));
                }
                match tree {
                    TokenTree::Token(sp, tok) => {
                        assert(self.remaining() =~= rem0.drop_first());
                        return TokenAndSpan(tok, sp);
                    },
                    TokenTree::Delimited(sp, ty, tts) => {
                        let mut frame = TokenCursorFrame {
                            open_delim: FrameDelimiter::from_open_delimiter(ty, sp),
                            close_delim: FrameDelimiter::from_close_delimiter(ty, sp),
                            tts,
                        };
                        std::mem::swap(&mut self.frame, &mut frame);
                        let ghost s0 = self.stack@;
                        self.stack.push(frame);
                        assert(self.stack@.drop_last() =~= s0);
                        assert(self.remaining() =~= rem0);
                    },
                }
            } else {
                match self.frame.close_delim.consume() {
                    Some(tok) => {
                        assert(self.remaining() =~= rem0.drop_first());
                        return tok;
                    },
                    None => {},
                }
                let ghost s0 = self.stack@;
                match self.stack.pop() {
                    Some(frame) => {
                        self.frame = frame;
                        assert(self.remaining() =~= rem0);
                    },
                    None => {
                        assert(rem0 =~= Seq::<(SpecToken, ByteSpan)>::empty());
                        return TokenAndSpan(Token::Eof, ByteSpan::default());
                    },
                }
            }
        }
    }

    /// Reads the next token, or `None` once all are read.
    pub fn next(&mut self) -> (r: Option<TokenAndSpan>)
        requires
            old(self).wf(),
        ensures
            final(self).wf(),
            old(self).remaining().len() > 0 && !(old(self).remaining()[0].0 is Eof) ==> (r matches Some(
                ts,
            ) && (ts.0@, ts.1) == old(self).remaining()[0]),
            old(self).remaining().len() > 0 ==> final(self).remaining()
                == old(self).remaining().drop_first(),
            (old(self).remaining().len() == 0 || old(self).remaining()[0].0 is Eof) ==> r is None,
            old(self).remaining().len() == 0 ==> final(self).remaining() == old(self).remaining(),
    {
        let next = self.advance();
        match next.0 {
            Token::Eof => None,
            _ => Some(next),
        }
    }

    /// Reads all the tokens up to the first `Eof` or the end, whichever
    /// comes first; where no `Eof` is left to read, these are exactly the
    /// tokens left, and the cursor is left at the end, where every further
    /// read gives `Eof` with the empty span.
    pub fn collect(&mut self) -> (r: Vec<TokenAndSpan>)
        requires
            old(self).wf(),
        ensures
            final(self).wf(),
            r@.len() <= old(self).remaining().len(),
            forall|i: int| 0 <= i < r@.len() ==> (#[trigger] r@[i].0@, r@[i].1) == old(self).remaining()[i],
            forall|i: int| 0 <= i < r@.len() ==> !(#[trigger] old(self).remaining()[i].0 is Eof),
            r@.len() < old(self).remaining().len() ==> old(self).remaining()[r@.len() as int].0 is Eof,
            (forall|i: int| 0 <= i < old(self).remaining().len() ==> !(#[trigger] old(self).remaining()[i].0 is Eof))
                ==> r@.len() == old(self).remaining().len() && final(self).remaining().len() == 0,
    {
        let ghost rem0 = self.remaining();
        let mut out: Vec<TokenAndSpan> = Vec::new();
        loop
            invariant_except_break
                self.wf(),
                out@.len() <= rem0.len(),
                self.remaining() == rem0.skip(out@.len() as int),
                forall|i: int| 0 <= i < out@.len() ==> (#[trigger] out@[i].0@, out@[i].1) == rem0[i],
                forall|i: int| 0 <= i < out@.len() ==> !(#[trigger] rem0[i].0 is Eof),
            ensures
                self.wf(),
                out@.len() <= rem0.len(),
                forall|i: int| 0 <= i < out@.len() ==> (#[trigger] out@[i].0@, out@[i].1) == rem0[i],
                forall|i: int| 0 <= i < out@.len() ==> !(#[trigger] rem0[i].0 is Eof),
                out@.len() < rem0.len() ==> rem0[out@.len() as int].0 is Eof,
                out@.len() == rem0.len() ==> self.remaining().len() == 0,
            decreases self.remaining().len(),
        {
            let ghost before = self.remaining();
            match self.next() {
                Some(t) => {
                    assert(before[0] == rem0[out@.len() as int]);
                    out.push(t);
                    assert(self.remaining() =~= rem0.skip(out@.len() as int));
                },
                None => {
                    break;
                },
            }
        }
        out
    }
}

} // verus!
