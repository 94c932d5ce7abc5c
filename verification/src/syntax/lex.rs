//! A lexer over source text whose spans are byte positions in a code map,
//! and a tokenizer that groups its tokens into trees of delimited groups.

pub mod token;
pub mod span;
pub mod text_reader;
pub mod token_tree;
pub mod token_cursor;
pub mod round_trip;

use vstd::prelude::*;
use crate::syntax::diagnostic::{Diagnostic, Severity, SpecDiagnostic};
use crate::syntax::lex::span::{ByteSpan, span_of};
use crate::syntax::lex::text_reader::{TextReader, byte_off, text_span, text_step};
use crate::syntax::lex::token::{DelimiterType, SpecToken, Token, copy_token};
use crate::syntax::lex::token_tree::{
    SpecTree, TokenTree, lemma_trees_view_empty, lemma_trees_view_push, tree_view, trees_view,
};

verus! {

/// The state of a tokenizer: the source and how far it has been read, the
/// current token and its span, the open delimiters with their spans, and
/// the reports emitted so far.
pub struct TokState {
    pub cs: Seq<char>,
    pub base: u32,
    pub pos: int,
    pub token: SpecToken,
    pub span: ByteSpan,
    pub open: Seq<(ByteSpan, SpecToken)>,
    pub emitted: Seq<SpecDiagnostic>,
}

/// The state after reading the next token.  At the end of the input the
/// token is `Eof` with the default span.
pub open spec fn advanced(st: TokState) -> TokState {
    let (t, i, j) = text_step(st.cs, st.pos);
    TokState {
        pos: j,
        token: t,
        span: if t is Eof {
            ByteSpan { start: 0, end: 0 }
        } else {
            text_span(st.cs, st.base, i, j)
        },
        ..st
    }
}

/// The state that a tokenizer over `cs` starts in.
pub open spec fn initial_state(cs: Seq<char>, base: u32) -> TokState {
    advanced(
        TokState {
            cs,
            base,
            pos: 0,
            token: SpecToken::Eof,
            span: ByteSpan { start: 0, end: 0 },
            open: Seq::empty(),
            emitted: Seq::empty(),
        },
    )
}

/// A measure of the work left: the characters not yet read, and one more
/// while the current token is not `Eof`.
pub open spec fn measure(st: TokState) -> int {
    (st.cs.len() - st.pos) + if st.token is Eof {
        0int
    } else {
        1int
    }
}

/// The read position lies within the source.
pub open spec fn in_bounds(st: TokState) -> bool {
    0 <= st.pos <= st.cs.len()
}

/// The report of delimiters left open at the end of the input.
pub open spec fn unclosed_diagnostic(open: Seq<(ByteSpan, SpecToken)>) -> SpecDiagnostic {
    SpecDiagnostic {
        severity: Severity::Error,
        message: "this file contains an un-closed delimiter"@,
        labels: open.map_values(
            |o: (ByteSpan, SpecToken)| (o.0, Some("did you mean to close this delimiter?"@)),
        ),
    }
}

/// The report of a closing delimiter of the wrong kind.
pub open spec fn incorrect_close_diagnostic(open: Seq<(ByteSpan, SpecToken)>) -> SpecDiagnostic {
    SpecDiagnostic {
        severity: Severity::Error,
        message: "incorrect close delimiter"@,
        labels: if open.len() > 0 {
            seq![(open.last().0, Some("unclosed delimiter found here"@))]
        } else {
            Seq::empty()
        },
    }
}

/// The report of a closing delimiter with nothing open.
pub open spec fn unexpected_close_diagnostic(span: ByteSpan) -> SpecDiagnostic {
    SpecDiagnostic {
        severity: Severity::Error,
        message: "unexpected_close_delimiter"@,
        labels: seq![(span, None)],
    }
}

/// Whether a delimiter of kind `d` is open.
pub open spec fn has_open_spec(open: Seq<(ByteSpan, SpecToken)>, d: DelimiterType) -> bool {
    exists|k: int| 0 <= k < open.len() && open[k].1 == SpecToken::OpenDelimiter(d)
}

/// The span enclosing two spans.
pub open spec fn enclosing(a: ByteSpan, b: ByteSpan) -> ByteSpan {
    span_of(
        if a.start <= b.start { a.start } else { b.start },
        if a.end >= b.end { a.end } else { b.end },
    )
}

/// The state after the closing delimiter of a group opened with `d`: a
/// matching one is read; a different one is reported and closes the
/// innermost open delimiter, and is read unless it matches one still open.
pub open spec fn close_step(st: TokState, d: DelimiterType) -> TokState {
    match st.token {
        SpecToken::CloseDelimiter(d2) => if d2 == d {
            advanced(TokState { open: st.open.drop_last(), ..st })
        } else {
            let st2 = TokState {
                open: st.open.drop_last(),
                emitted: st.emitted.push(incorrect_close_diagnostic(st.open)),
                ..st
            };
            if !has_open_spec(st2.open, d2) {
                advanced(st2)
            } else {
                st2
            }
        },
        _ => st,
    }
}

/// One token tree from the state `st`, and the state after it: a token; a
/// group from an opening delimiter to its closing one; or a report, at the
/// end of the input or at a closing delimiter.
pub open spec fn spec_tree(st: TokState) -> (Result<SpecTree, SpecDiagnostic>, TokState)
    decreases measure(st), 0int,
{
    if !in_bounds(st) {
        (Err(unexpected_close_diagnostic(st.span)), st)
    } else {
        match st.token {
            SpecToken::Eof => (Err(unclosed_diagnostic(st.open)), st),
            SpecToken::OpenDelimiter(d) => {
                let st1 = advanced(TokState { open: st.open.push((st.span, st.token)), ..st });
                if measure(st1) < measure(st) && in_bounds(st1) {
                    let (tts, st2) = spec_until(st1, Seq::empty());
                    (Ok(SpecTree::Delimited(enclosing(st.span, st2.span), d, tts)), close_step(st2, d))
                } else {
                    (Err(unexpected_close_diagnostic(st.span)), st)
                }
            },
            SpecToken::CloseDelimiter(_) => (Err(unexpected_close_diagnostic(st.span)), st),
            t => (Ok(SpecTree::Token(st.span, t)), advanced(st)),
        }
    }
}

/// The token trees from `st` up to a closing delimiter, after the trees
/// `acc`.  A report ends the list and is emitted.
pub open spec fn spec_until(st: TokState, acc: Seq<SpecTree>) -> (Seq<SpecTree>, TokState)
    decreases measure(st), 1int,
{
    if !in_bounds(st) || st.token is CloseDelimiter {
        (acc, st)
    } else {
        let (res, st1) = spec_tree(st);
        match res {
            Ok(tt) => if measure(st1) < measure(st) && in_bounds(st1) {
                spec_until(st1, acc.push(tt))
            } else {
                (acc.push(tt), st1)
            },
            Err(e) => (acc, TokState { emitted: st1.emitted.push(e), ..st1 }),
        }
    }
}

/// The token trees from `st` to the end of the input, after the trees
/// `acc`, or the first report.
pub open spec fn spec_tokenize(st: TokState, acc: Seq<SpecTree>) -> (
    Result<Seq<SpecTree>, SpecDiagnostic>,
    TokState,
)
    decreases measure(st),
{
    if !in_bounds(st) || st.token is Eof {
        (Ok(acc), st)
    } else {
        let (res, st1) = spec_tree(st);
        match res {
            Ok(tt) => if measure(st1) < measure(st) && in_bounds(st1) {
                spec_tokenize(st1, acc.push(tt))
            } else {
                (Ok(acc.push(tt)), st1)
            },
            Err(e) => (Err(e), st1),
        }
    }
}

/// The model of the open delimiters.
pub open spec fn open_view(v: Seq<(ByteSpan, Token)>) -> Seq<(ByteSpan, SpecToken)> {
    v.map_values(|o: (ByteSpan, Token)| (o.0, o.1@))
}

/// The model of the reports.
pub open spec fn emitted_view(v: Seq<Diagnostic>) -> Seq<SpecDiagnostic> {
    v.map_values(|d: Diagnostic| d@)
}

/// The model of a result of a tokenizer.
pub open spec fn tree_result_view(r: Result<TokenTree, Diagnostic>) -> Result<SpecTree, SpecDiagnostic> {
    match r {
        Ok(t) => Ok(tree_view(t)),
        Err(e) => Err(e@),
    }
}

/// Reading the next token never adds work, and takes some away unless the
/// current token is `Eof`.
pub proof fn lemma_advanced(st: TokState)
    requires
        in_bounds(st),
    ensures
        in_bounds(advanced(st)),
        measure(advanced(st)) <= measure(st),
        !(st.token is Eof) ==> measure(advanced(st)) < measure(st),
        advanced(st).pos >= st.pos,
{
    lemma_text_step(st.cs, st.pos);
}

/// A token read from `p` lies within the source, covers at least one
/// character unless it is `Eof`, and `Eof` is read only at the end.
pub proof fn lemma_text_step(cs: Seq<char>, p: int)
    requires
        0 <= p <= cs.len(),
    ensures
        p <= text_step(cs, p).1 <= text_step(cs, p).2 <= cs.len(),
        text_step(cs, p).0 is Eof ==> text_step(cs, p).2 == cs.len(),
        !(text_step(cs, p).0 is Eof) ==> text_step(cs, p).1 < text_step(cs, p).2,
    decreases cs.len() - p,
{
    if p < cs.len() {
        lemma_text_step(cs, p + 1);
        crate::syntax::char_lexer::lemma_name_run(cs, p + 1);
    }
}

} // verus!

verus! {

/// The kinds of current token that decide what a tokenizer does next.
enum Current {
    Eof,
    Open(DelimiterType),
    Close(DelimiterType),
    Other,
}

/// The kind of the token `t`.
fn current_kind(t: &Token) -> (r: Current)
    ensures
        r is Eof <==> t@ is Eof,
        r matches Current::Open(d) ==> t@ == SpecToken::OpenDelimiter(d),
        t@ matches SpecToken::OpenDelimiter(d) ==> r == Current::Open(d),
        r matches Current::Close(d) ==> t@ == SpecToken::CloseDelimiter(d),
        t@ matches SpecToken::CloseDelimiter(d) ==> r == Current::Close(d),
        r is Other ==> !(t@ is Eof) && !(t@ is OpenDelimiter) && !(t@ is CloseDelimiter),
{
    match t {
        Token::Eof => Current::Eof,
        Token::OpenDelimiter(d) => Current::Open(*d),
        Token::CloseDelimiter(d) => Current::Close(*d),
        _ => Current::Other,
    }
}

/// Whether a delimiter of kind `d` is open.
fn has_open(open: &Vec<(ByteSpan, Token)>, d: DelimiterType) -> (r: bool)
    ensures
        r == has_open_spec(open_view(open@), d),
{
    let mut k: usize = 0;
    while k < open.len()
        invariant
            k <= open@.len(),
            forall|j: int| 0 <= j < k ==> open_view(open@)[j].1 != SpecToken::OpenDelimiter(d),
        decreases open@.len() - k,
    {
        match current_kind(&open[k].1) {
            Current::Open(e) => {
                if e == d {
                    assert(open_view(open@)[k as int].1 == SpecToken::OpenDelimiter(d));
                    return true;
                }
            },
            _ => {},
        }
        k = k + 1;
    }
    false
}

/// A lexer that reads the tokens of a source file and groups them into
/// token trees, reporting delimiters that do not match.
pub struct Tokenizer<'input> {
    reader: TextReader<'input>,
    token: Token,
    span: ByteSpan,
    open_braces: Vec<(ByteSpan, Token)>,
    emitted: Vec<Diagnostic>,
}

impl<'input> Tokenizer<'input> {
    /// The state of the tokenizer.
    pub closed spec fn state(&self) -> TokState {
        TokState {
            cs: self.reader.spec_chars(),
            base: self.reader.spec_base(),
            pos: self.reader.spec_pos(),
            token: self.token@,
            span: self.span,
            open: open_view(self.open_braces@),
            emitted: emitted_view(self.emitted@),
        }
    }

    /// The tokenizer is consistent with its source.
    pub closed spec fn wf(&self) -> bool {
        &&& self.reader.wf()
        &&& in_bounds(self.state())
    }

    /// Create a tokenizer over `src`, a file whose first byte has position
    /// `base` in its code map, positioned at its first token.
    pub fn new(src: &'input str, base: u32) -> (r: Self)
        requires
            base + byte_off(src@, src@.len() as int) <= u32::MAX,
        ensures
            r.wf(),
            r.state() == initial_state(src@, base),
    {
        let mut reader = TextReader::new(src, base);
        let (token, span) = reader.read_next_token();
        proof {
            reader.lemma_pos_bounds();
        }
        let r = Tokenizer { reader, token, span, open_braces: Vec::new(), emitted: Vec::new() };
        assert(r.state().open =~= Seq::<(ByteSpan, SpecToken)>::empty());
        assert(r.state().emitted =~= Seq::<SpecDiagnostic>::empty());
        r
    }

    /// The reports emitted so far.
    pub fn emitted(&self) -> (r: &Vec<Diagnostic>)
        ensures
            emitted_view(r@) == self.state().emitted,
    {
        &self.emitted
    }

    /// Reads the next token.
    pub fn advance(&mut self)
        requires
            old(self).wf(),
        ensures
            final(self).wf(),
            final(self).state() == advanced(old(self).state()),
    {
        let (token, span) = self.reader.read_next_token();
        proof {
            self.reader.lemma_pos_bounds();
        }
        self.token = token;
        self.span = span;
    }
}

} // verus!

verus! {

/// The model of the result of tokenizing a whole source.
pub open spec fn trees_result_view(r: Result<Vec<TokenTree>, Diagnostic>) -> Result<
    Seq<SpecTree>,
    SpecDiagnostic,
> {
    match r {
        Ok(v) => Ok(trees_view(v@)),
        Err(e) => Err(e@),
    }
}

impl<'input> Tokenizer<'input> {
    /// Reads the token trees up to the end of the input.  The first report
    /// ends the reading and is returned.
    pub fn tokenize(&mut self) -> (r: Result<Vec<TokenTree>, Diagnostic>)
        requires
            old(self).wf(),
        ensures
            final(self).wf(),
            (trees_result_view(r), final(self).state()) == spec_tokenize(
                old(self).state(),
                Seq::empty(),
            ),
    {
        let mut tts: Vec<TokenTree> = Vec::new();
        proof {
            lemma_trees_view_empty(tts@);
        }
        loop
            invariant
                self.wf(),
                in_bounds(self.state()),
                spec_tokenize(self.state(), trees_view(tts@)) == spec_tokenize(
                    old(self).state(),
                    Seq::empty(),
                ),
            ensures
                self.wf(),
                self.state().token is Eof,
                spec_tokenize(old(self).state(), Seq::empty()) == (
                    Ok::<Seq<SpecTree>, SpecDiagnostic>(trees_view(tts@)),
                    self.state(),
                ),
            decreases measure(self.state()),
        {
            match current_kind(&self.token) {
                Current::Eof => break,
                _ => {},
            }
            match self.tokenize_tree() {
                Ok(tt) => {
                    proof {
                        lemma_trees_view_push(tts@, tt);
                    }
                    tts.push(tt);
                },
                Err(e) => return Err(e),
            }
        }
        Ok(tts)
    }

    /// Reads token trees up to a closing delimiter.  A report ends the
    /// reading and is emitted.
    pub fn tokenize_tree_until_delimiter(&mut self) -> (r: Vec<TokenTree>)
        requires
            old(self).wf(),
            in_bounds(old(self).state()),
        ensures
            final(self).wf(),
            in_bounds(final(self).state()),
            (trees_view(r@), final(self).state()) == spec_until(old(self).state(), Seq::empty()),
            measure(final(self).state()) <= measure(old(self).state()),
            final(self).state().open.len() >= old(self).state().open.len(),
            final(self).state().cs == old(self).state().cs,
            final(self).state().base == old(self).state().base,
        decreases measure(old(self).state()), 1int,
    {
        let mut tts: Vec<TokenTree> = Vec::new();
        proof {
            lemma_trees_view_empty(tts@);
        }
        loop
            invariant_except_break
                spec_until(self.state(), trees_view(tts@)) == spec_until(
                    old(self).state(),
                    Seq::empty(),
                ),
            invariant
                self.wf(),
                in_bounds(self.state()),
                measure(self.state()) <= measure(old(self).state()),
                self.state().open.len() >= old(self).state().open.len(),
                self.state().cs == old(self).state().cs,
                self.state().base == old(self).state().base,
            ensures
                self.wf(),
                in_bounds(self.state()),
                (trees_view(tts@), self.state()) == spec_until(old(self).state(), Seq::empty()),
                measure(self.state()) <= measure(old(self).state()),
                self.state().open.len() >= old(self).state().open.len(),
                self.state().cs == old(self).state().cs,
                self.state().base == old(self).state().base,
            decreases measure(self.state()),
        {
            match current_kind(&self.token) {
                Current::Close(_) => break,
                _ => {},
            }
            match self.tokenize_tree() {
                Ok(tt) => {
                    proof {
                        lemma_trees_view_push(tts@, tt);
                    }
                    tts.push(tt);
                },
                Err(e) => {
                    let ghost before = self.emitted@;
                    let ghost ev = e@;
                    self.emitted.push(e);
                    assert(emitted_view(self.emitted@) =~= emitted_view(before).push(ev));
                    break;
                },
            }
        }
        tts
    }

    /// Reads one token tree: a token, or a delimited group up to its
    /// closing delimiter.  At the end of the input, or at a closing
    /// delimiter, it returns a report instead.
    pub fn tokenize_tree(&mut self) -> (r: Result<TokenTree, Diagnostic>)
        requires
            old(self).wf(),
            in_bounds(old(self).state()),
        ensures
            final(self).wf(),
            in_bounds(final(self).state()),
            (tree_result_view(r), final(self).state()) == spec_tree(old(self).state()),
            r is Ok ==> measure(final(self).state()) < measure(old(self).state()),
            measure(final(self).state()) <= measure(old(self).state()),
            final(self).state().open.len() >= old(self).state().open.len(),
            final(self).state().cs == old(self).state().cs,
            final(self).state().base == old(self).state().base,
        decreases measure(old(self).state()), 0int,
    {
        let ghost st = self.state();
        match current_kind(&self.token) {
            Current::Eof => {
                let mut err = Diagnostic::new(Severity::Error, "this file contains an un-closed delimiter");
                let mut k: usize = 0;
                while k < self.open_braces.len()
                    invariant
                        k <= self.open_braces@.len(),
                        self.state() == st,
                        err@.severity == Severity::Error,
                        err@.message == "this file contains an un-closed delimiter"@,
                        err@.labels =~= Seq::new(
                            k as nat,
                            |i: int| (st.open[i].0, Some("did you mean to close this delimiter?"@)),
                        ),
                    decreases self.open_braces@.len() - k,
                {
                    err = err.span_err(self.open_braces[k].0, "did you mean to close this delimiter?");
                    k = k + 1;
                }
                assert(err@.labels =~= unclosed_diagnostic(st.open).labels);
                assert(err@ == unclosed_diagnostic(st.open));
                Err(err)
            },
            Current::Open(delimiter) => {
                let start_sp = self.span;
                let ghost before = self.open_braces@;
                self.open_braces.push((self.span, Token::OpenDelimiter(delimiter)));
                assert(open_view(self.open_braces@) =~= st.open.push((st.span, st.token)));
                proof {
                    lemma_advanced(self.state());
                }
                self.advance();
                let tts = self.tokenize_tree_until_delimiter();
                let end_sp = self.span;
                let ghost st2 = self.state();
                match current_kind(&self.token) {
                    Current::Close(d) => {
                        if d == delimiter {
                            let ghost v = self.open_braces@;
                            self.open_braces.pop().unwrap();
                            assert(open_view(self.open_braces@) =~= open_view(v).drop_last());
                            proof {
                                lemma_advanced(self.state());
                            }
                            self.advance();
                        } else {
                            let mut err = Diagnostic::new(Severity::Error, "incorrect close delimiter");
                            if self.open_braces.len() > 0 {
                                let last = self.open_braces.len() - 1;
                                err = err.span_err(self.open_braces[last].0, "unclosed delimiter found here");
                            }
                            assert(err@ == incorrect_close_diagnostic(st2.open));
                            let ghost e0 = self.emitted@;
                            let ghost ev = err@;
                            self.emitted.push(err);
                            assert(emitted_view(self.emitted@) =~= emitted_view(e0).push(ev));
                            let ghost v = self.open_braces@;
                            self.open_braces.pop().unwrap();
                            assert(open_view(self.open_braces@) =~= open_view(v).drop_last());
                            if !has_open(&self.open_braces, d) {
                                proof {
                                    lemma_advanced(self.state());
                                }
                                self.advance();
                            }
                        }
                    },
                    _ => {},
                }
                let r = TokenTree::Delimited(start_sp.to(&end_sp), delimiter, tts);
                assert(tree_view(r) == SpecTree::Delimited(enclosing(st.span, st2.span), delimiter, spec_until(advanced(TokState { open: st.open.push((st.span, st.token)), ..st }), Seq::empty()).0));
                Ok(r)
            },
            Current::Close(_) => Err(Diagnostic::new(Severity::Error, "unexpected_close_delimiter").span(self.span)),
            Current::Other => {
                let tok = copy_token(&self.token);
                let tt = TokenTree::Token(self.span, tok);
                proof {
                    lemma_advanced(self.state());
                }
                self.advance();
                Ok(tt)
            },
        }
    }
}

} // verus!
