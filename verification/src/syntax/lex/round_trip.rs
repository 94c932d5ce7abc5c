//! The token trees of a source, read back through a cursor, give the
//! tokens that the reader reads from the source, when every delimiter is
//! closed by one of its kind.

use vstd::prelude::*;
use crate::syntax::lex::span::{ByteSpan, span_of};
use crate::syntax::lex::text_reader::{byte_off, lemma_byte_off_mono, text_span, text_step, utf8_width};
use crate::syntax::lex::token::SpecToken;
use crate::syntax::lex::token_cursor::{close_span, flatten, flatten_tree, open_span};
use crate::syntax::lex::token_tree::SpecTree;
use crate::syntax::lex::{
    TokState, advanced, close_step, enclosing, in_bounds, initial_state, lemma_advanced, lemma_text_step,
    measure, spec_tokenize, spec_tree, spec_until,
};

verus! {

/// The tokens the reader gives from character `pos` of `cs` on, after the
/// current token `token` with span `span`, up to the end of the input.
pub open spec fn stream(cs: Seq<char>, base: u32, pos: int, token: SpecToken, span: ByteSpan) -> Seq<
    (SpecToken, ByteSpan),
>
    decreases cs.len() - pos, if token is Eof {
        0int
    } else {
        1int
    },
{
    if pos < 0 || pos > cs.len() || token is Eof {
        Seq::empty()
    } else {
        let (t, i, j) = text_step(cs, pos);
        let sp = if t is Eof {
            ByteSpan { start: 0, end: 0 }
        } else {
            text_span(cs, base, i, j)
        };
        if pos <= j <= cs.len() && (j > pos || t is Eof) {
            seq![(token, span)] + stream(cs, base, j, t, sp)
        } else {
            seq![(token, span)]
        }
    }
}

/// The tokens the reader gives from the state `st` on, its current token
/// first.
pub open spec fn tokens_of(st: TokState) -> Seq<(SpecToken, ByteSpan)> {
    stream(st.cs, st.base, st.pos, st.token, st.span)
}

/// The current token of `st` is the one the reader reads from `q`.
pub open spec fn read_from(st: TokState, q: int) -> bool {
    let (t, i, j) = text_step(st.cs, q);
    &&& st.pos == j
    &&& st.token == t
    &&& st.span == if t is Eof {
        ByteSpan { start: 0, end: 0 }
    } else {
        text_span(st.cs, st.base, i, j)
    }
}

/// The byte positions of the source fit in the code map.
pub open spec fn fits(st: TokState) -> bool {
    st.base + byte_off(st.cs, st.cs.len() as int) <= u32::MAX
}

/// The reports `e1` extend the reports `e0`.
pub open spec fn extends(e0: Seq<crate::syntax::diagnostic::SpecDiagnostic>, e1: Seq<crate::syntax::diagnostic::SpecDiagnostic>) -> bool {
    e1.len() >= e0.len() && e1.subrange(0, e0.len() as int) == e0
}

proof fn lemma_extends_trans(
    e0: Seq<crate::syntax::diagnostic::SpecDiagnostic>,
    e1: Seq<crate::syntax::diagnostic::SpecDiagnostic>,
    e2: Seq<crate::syntax::diagnostic::SpecDiagnostic>,
)
    requires
        extends(e0, e1),
        extends(e1, e2),
    ensures
        extends(e0, e2),
        e2 == e0 ==> e1 == e0,
{
    assert(e2.subrange(0, e0.len() as int) =~= e2.subrange(0, e1.len() as int).subrange(
        0,
        e0.len() as int,
    ));
    if e2 == e0 {
        assert(e1 =~= e0);
    }
}

/// The tokens of a state whose token is not `Eof`: that token, then the
/// tokens of the state after it.
proof fn lemma_tokens_of_step(st: TokState)
    requires
        in_bounds(st),
        !(st.token is Eof),
    ensures
        tokens_of(st) == seq![(st.token, st.span)] + tokens_of(advanced(st)),
{
    lemma_text_step(st.cs, st.pos);
}

/// A delimiter is a single character of a single byte.
proof fn lemma_text_step_delimiter(cs: Seq<char>, p: int)
    requires
        0 <= p <= cs.len(),
    ensures
        (text_step(cs, p).0 is OpenDelimiter || text_step(cs, p).0 is CloseDelimiter) ==> (
        text_step(cs, p).2 == text_step(cs, p).1 + 1 && utf8_width(cs[text_step(cs, p).1]) == 1),
    decreases cs.len() - p,
{
    if p < cs.len() {
        lemma_text_step_delimiter(cs, p + 1);
    }
}

/// Reading trees only adds reports, keeps the source, stays within it,
/// never adds work, and takes some away when it gives a tree.
proof fn lemma_tree_basics(st: TokState)
    requires
        in_bounds(st),
    ensures
        extends(st.emitted, spec_tree(st).1.emitted),
        spec_tree(st).1.cs == st.cs,
        spec_tree(st).1.base == st.base,
        in_bounds(spec_tree(st).1),
        measure(spec_tree(st).1) <= measure(st),
        spec_tree(st).0 is Ok ==> measure(spec_tree(st).1) < measure(st),
    decreases measure(st), 0int,
{
    assert(st.emitted.subrange(0, st.emitted.len() as int) =~= st.emitted);
    match st.token {
        SpecToken::Eof => {},
        SpecToken::OpenDelimiter(d) => {
            let st0 = TokState { open: st.open.push((st.span, st.token)), ..st };
            lemma_advanced(st0);
            let st1 = advanced(st0);
            lemma_until_basics(st1, Seq::empty());
            let st2 = spec_until(st1, Seq::empty()).1;
            let st2b = TokState { open: st2.open.drop_last(), ..st2 };
            lemma_advanced(st2b);
            match st2.token {
                SpecToken::CloseDelimiter(d2) => {
                    if d2 != d {
                        let st2c = TokState {
                            open: st2.open.drop_last(),
                            emitted: st2.emitted.push(crate::syntax::lex::incorrect_close_diagnostic(st2.open)),
                            ..st2
                        };
                        lemma_advanced(st2c);
                        assert(st2c.emitted.subrange(0, st2.emitted.len() as int) =~= st2.emitted);
                        lemma_extends_trans(st.emitted, st2.emitted, st2c.emitted);
                    }
                },
                _ => {},
            }
        },
        SpecToken::CloseDelimiter(_) => {},
        _ => {
            lemma_advanced(st);
        },
    }
}

/// The same, for reading trees up to a closing delimiter.
proof fn lemma_until_basics(st: TokState, acc: Seq<SpecTree>)
    requires
        in_bounds(st),
    ensures
        extends(st.emitted, spec_until(st, acc).1.emitted),
        spec_until(st, acc).1.cs == st.cs,
        spec_until(st, acc).1.base == st.base,
        in_bounds(spec_until(st, acc).1),
        measure(spec_until(st, acc).1) <= measure(st),
    decreases measure(st), 1int,
{
    assert(st.emitted.subrange(0, st.emitted.len() as int) =~= st.emitted);
    if !(st.token is CloseDelimiter) {
        lemma_tree_basics(st);
        let (res, st1) = spec_tree(st);
        match res {
            Ok(tt) => {
                if measure(st1) < measure(st) && in_bounds(st1) {
                    lemma_until_basics(st1, acc.push(tt));
                    lemma_extends_trans(st.emitted, st1.emitted, spec_until(st1, acc.push(tt)).1.emitted);
                }
            },
            Err(e) => {
                let st2 = TokState { emitted: st1.emitted.push(e), ..st1 };
                assert(st2.emitted.subrange(0, st1.emitted.len() as int) =~= st1.emitted);
                lemma_extends_trans(st.emitted, st1.emitted, st2.emitted);
            },
        }
    }
}


/// The tokens of trees laid end to end are the tokens of each in turn.
proof fn lemma_flatten_concat(a: Seq<SpecTree>, b: Seq<SpecTree>)
    ensures
        flatten(a + b) == flatten(a) + flatten(b),
    decreases a.len(),
{
    if a.len() == 0 {
        assert(a + b =~= b);
        assert(flatten(a) + flatten(b) =~= flatten(b));
    } else {
        let rest = a.subrange(1, a.len() as int);
        assert((a + b)[0] == a[0]);
        assert((a + b).subrange(1, (a + b).len() as int) =~= rest + b);
        lemma_flatten_concat(rest, b);
        assert(flatten(a + b) =~= flatten(a) + flatten(b));
    }
}

/// The tokens of trees with one more at the end.
proof fn lemma_flatten_push(a: Seq<SpecTree>, t: SpecTree)
    ensures
        flatten(a.push(t)) == flatten(a) + flatten_tree(t),
{
    lemma_flatten_concat(a, seq![t]);
    assert(a.push(t) =~= a + seq![t]);
    assert(seq![t].subrange(1, 1).len() == 0);
    assert(flatten(seq![t].subrange(1, 1)) =~= Seq::<(SpecToken, ByteSpan)>::empty());
    assert(flatten(seq![t]) =~= flatten_tree(t));
}

/// Reading one tree without a report gives a tree whose tokens are the
/// tokens the reader reads up to the state after it.
proof fn lemma_tree_stream(st: TokState, q: int) -> (q2: int)
    requires
        in_bounds(st),
        fits(st),
        0 <= q <= st.pos,
        read_from(st, q),
        spec_tree(st).0 is Ok,
        spec_tree(st).1.emitted == st.emitted,
    ensures
        flatten_tree(spec_tree(st).0->Ok_0) + tokens_of(spec_tree(st).1) == tokens_of(st),
        st.pos <= q2 <= spec_tree(st).1.pos,
        read_from(spec_tree(st).1, q2),
    decreases measure(st), 0int,
{
    lemma_tree_basics(st);
    lemma_text_step(st.cs, q);
    match st.token {
        SpecToken::OpenDelimiter(d) => {
            let st0 = TokState { open: st.open.push((st.span, st.token)), ..st };
            lemma_advanced(st0);
            let st1 = advanced(st0);
            lemma_until_basics(st1, Seq::empty());
            let (tts, st2) = spec_until(st1, Seq::empty());
            let st3 = close_step(st2, d);
            assert(spec_tree(st) == (
                Ok::<SpecTree, crate::syntax::diagnostic::SpecDiagnostic>(SpecTree::Delimited(enclosing(st.span, st2.span), d, tts)),
                st3,
            ));
            // No report was made, so the group was closed by a delimiter of its kind.
            match st2.token {
                SpecToken::CloseDelimiter(d2) => {
                    if d2 != d {
                        let st2c = TokState {
                            open: st2.open.drop_last(),
                            emitted: st2.emitted.push(crate::syntax::lex::incorrect_close_diagnostic(st2.open)),
                            ..st2
                        };
                        lemma_advanced(st2c);
                        assert(st3.emitted.len() > st.emitted.len());
                    }
                },
                _ => {},
            }
            lemma_extends_trans(st.emitted, st2.emitted, st3.emitted);
            let q1 = lemma_until_stream(st1, Seq::empty(), st.pos);
            assert(st2.token == SpecToken::CloseDelimiter(d));
            let st2b = TokState { open: st2.open.drop_last(), ..st2 };
            assert(st3 == advanced(st2b));
            lemma_advanced(st2b);
            lemma_tokens_of_step(st2b);
            lemma_tokens_of_step(st);
            assert(tokens_of(st1) == tokens_of(advanced(st)));
            assert(flatten(Seq::<SpecTree>::empty()) =~= Seq::<(SpecToken, ByteSpan)>::empty());
            // The spans of the delimiters.
            let (t0, i0, j0) = text_step(st.cs, q);
            lemma_text_step_delimiter(st.cs, q);
            lemma_text_step(st.cs, q1);
            lemma_text_step_delimiter(st.cs, q1);
            let (t2, i2, j2) = text_step(st.cs, q1);
            lemma_byte_off_mono(st.cs, j0, i2);
            lemma_byte_off_mono(st.cs, i0, j0);
            lemma_byte_off_mono(st.cs, j2, st.cs.len() as int);
            lemma_byte_off_mono(st.cs, i2, j2);
            assert(byte_off(st.cs, j0) == byte_off(st.cs, i0) + 1);
            assert(byte_off(st.cs, j2) == byte_off(st.cs, i2) + 1);
            let enc = enclosing(st.span, st2.span);
            assert(enc == ByteSpan { start: st.span.start, end: st2.span.end });
            assert(open_span(enc) == st.span);
            assert(close_span(enc) == st2.span);
            assert(flatten_tree(SpecTree::Delimited(enc, d, tts)) + tokens_of(st3) =~= tokens_of(st));
            st2.pos
        },
        _ => {
            lemma_tokens_of_step(st);
            st.pos
        },
    }
}

/// Reading trees up to a closing delimiter without a report gives trees
/// whose tokens are the tokens the reader reads up to that delimiter.
proof fn lemma_until_stream(st: TokState, acc: Seq<SpecTree>, q: int) -> (q2: int)
    requires
        in_bounds(st),
        fits(st),
        0 <= q <= st.pos,
        read_from(st, q),
        spec_until(st, acc).1.emitted == st.emitted,
    ensures
        flatten(spec_until(st, acc).0) + tokens_of(spec_until(st, acc).1) == flatten(acc) + tokens_of(st),
        q <= q2 <= spec_until(st, acc).1.pos,
        read_from(spec_until(st, acc).1, q2),
        spec_until(st, acc).1.token is CloseDelimiter,
    decreases measure(st), 1int,
{
    lemma_text_step(st.cs, q);
    if st.token is CloseDelimiter {
        q
    } else {
        lemma_tree_basics(st);
        let (res, st1) = spec_tree(st);
        match res {
            Ok(tt) => {
                lemma_until_basics(st1, acc.push(tt));
                lemma_extends_trans(st.emitted, st1.emitted, spec_until(st1, acc.push(tt)).1.emitted);
                let q1 = lemma_tree_stream(st, q);
                let q2 = lemma_until_stream(st1, acc.push(tt), q1);
                lemma_flatten_push(acc, tt);
                assert(flatten(acc.push(tt)) + tokens_of(st1) =~= flatten(acc) + tokens_of(st));
                q2
            },
            Err(e) => {
                assert(false);
                q
            },
        }
    }
}

/// Reading trees to the end of the input without a report gives trees
/// whose tokens are the tokens the reader reads.
proof fn lemma_tokenize_stream(st: TokState, acc: Seq<SpecTree>, q: int)
    requires
        in_bounds(st),
        fits(st),
        0 <= q <= st.pos,
        read_from(st, q),
        spec_tokenize(st, acc).0 is Ok,
        spec_tokenize(st, acc).1.emitted == st.emitted,
    ensures
        flatten(spec_tokenize(st, acc).0->Ok_0) == flatten(acc) + tokens_of(st),
    decreases measure(st),
{
    lemma_text_step(st.cs, q);
    if st.token is Eof {
        assert(flatten(acc) + tokens_of(st) =~= flatten(acc));
    } else {
        lemma_tree_basics(st);
        let (res, st1) = spec_tree(st);
        match res {
            Ok(tt) => {
                lemma_tokenize_basics(st1, acc.push(tt));
                lemma_extends_trans(st.emitted, st1.emitted, spec_tokenize(st1, acc.push(tt)).1.emitted);
                let q1 = lemma_tree_stream(st, q);
                lemma_tokenize_stream(st1, acc.push(tt), q1);
                lemma_flatten_push(acc, tt);
                assert(flatten(acc.push(tt)) + tokens_of(st1) =~= flatten(acc) + tokens_of(st));
            },
            Err(e) => {},
        }
    }
}

/// Reading trees to the end of the input only adds reports.
proof fn lemma_tokenize_basics(st: TokState, acc: Seq<SpecTree>)
    requires
        in_bounds(st),
    ensures
        extends(st.emitted, spec_tokenize(st, acc).1.emitted),
    decreases measure(st),
{
    assert(st.emitted.subrange(0, st.emitted.len() as int) =~= st.emitted);
    if !(st.token is Eof) {
        lemma_tree_basics(st);
        let (res, st1) = spec_tree(st);
        match res {
            Ok(tt) => {
                if measure(st1) < measure(st) && in_bounds(st1) {
                    lemma_tokenize_basics(st1, acc.push(tt));
                    lemma_extends_trans(st.emitted, st1.emitted, spec_tokenize(st1, acc.push(tt)).1.emitted);
                }
            },
            Err(e) => {},
        }
    }
}

/// When a source is read into token trees with no report, the tokens of
/// the trees, which a cursor reads back, are exactly the tokens that the
/// reader reads from the source, delimiters and their spans included.
pub proof fn lemma_token_trees_round_trip(cs: Seq<char>, base: u32)
    requires
        base + byte_off(cs, cs.len() as int) <= u32::MAX,
    ensures
        ({
            let (res, st2) = spec_tokenize(initial_state(cs, base), Seq::empty());
            res is Ok && st2.emitted.len() == 0 ==> flatten(res->Ok_0) == tokens_of(initial_state(cs, base))
        }),
{
    let st0 = TokState {
        cs,
        base,
        pos: 0,
        token: SpecToken::Eof,
        span: ByteSpan { start: 0, end: 0 },
        open: Seq::empty(),
        emitted: Seq::empty(),
    };
    lemma_advanced(st0);
    let st = initial_state(cs, base);
    let (res, st2) = spec_tokenize(st, Seq::empty());
    if res is Ok && st2.emitted.len() == 0 {
        assert(st2.emitted =~= st.emitted);
        lemma_tokenize_stream(st, Seq::empty(), 0);
        assert(flatten(Seq::<SpecTree>::empty()) + tokens_of(st) =~= tokens_of(st));
    }
}

} // verus!

verus! {

/// What a cursor over token trees yields, written out: nothing for no
/// trees; the tokens of each tree in turn for a sequence of trees; the
/// token itself for a leaf; and for a group whose span covers more than one
/// position, its opening delimiter on the group's first position, the
/// tokens inside, and its closing delimiter on the group's last position.
pub proof fn lemma_flatten_equations(a: Seq<SpecTree>, b: Seq<SpecTree>, t: SpecTree)
    ensures
        flatten(Seq::<SpecTree>::empty()) == Seq::<(SpecToken, ByteSpan)>::empty(),
        flatten(a + b) == flatten(a) + flatten(b),
        flatten(seq![t]) == flatten_tree(t),
        t matches SpecTree::Token(sp, tok) ==> flatten_tree(t) == seq![(tok, sp)],
        t matches SpecTree::Delimited(sp, d, ts) ==> (sp.start < sp.end ==> flatten_tree(t) == seq![
            (SpecToken::OpenDelimiter(d), ByteSpan { start: sp.start, end: (sp.start + 1) as u32 }),
        ] + flatten(ts) + seq![
            (SpecToken::CloseDelimiter(d), ByteSpan { start: (sp.end - 1) as u32, end: sp.end }),
        ]),
{
    lemma_flatten_concat(a, b);
    lemma_flatten_push(Seq::empty(), t);
    assert(Seq::<SpecTree>::empty().push(t) =~= seq![t]);
}

} // verus!

verus! {

/// No leaf of the tree is `Eof`.
pub open spec fn tree_without_eof(t: SpecTree) -> bool
    decreases t,
{
    match t {
        SpecTree::Token(_, tok) => !(tok is Eof),
        SpecTree::Delimited(_, _, ts) => trees_without_eof(ts),
    }
}

/// No leaf of the trees is `Eof`.
pub open spec fn trees_without_eof(ts: Seq<SpecTree>) -> bool
    decreases ts,
{
    if ts.len() == 0 {
        true
    } else {
        tree_without_eof(ts[0]) && trees_without_eof(ts.subrange(1, ts.len() as int))
    }
}

/// Trees with no `Eof` leaf yield no `Eof` token, so a cursor over them
/// reads all their tokens before it reports the end.
pub proof fn lemma_flatten_without_eof(ts: Seq<SpecTree>)
    requires
        trees_without_eof(ts),
    ensures
        forall|i: int| 0 <= i < flatten(ts).len() ==> !(#[trigger] flatten(ts)[i].0 is Eof),
    decreases ts,
{
    if ts.len() > 0 {
        let rest = ts.subrange(1, ts.len() as int);
        assert(decreases_to!(ts => ts[0]));
        lemma_flatten_tree_without_eof(ts[0]);
        lemma_flatten_without_eof(rest);
        let a = flatten_tree(ts[0]);
        let b = flatten(rest);
        assert(flatten(ts) == a + b);
        assert forall|i: int| 0 <= i < flatten(ts).len() implies !(#[trigger] flatten(ts)[i].0 is Eof) by {
            if i < a.len() {
                assert(flatten(ts)[i] == a[i]);
            } else {
                assert(flatten(ts)[i] == b[i - a.len()]);
            }
        }
    }
}

/// A tree with no `Eof` leaf yields no `Eof` token.
pub proof fn lemma_flatten_tree_without_eof(t: SpecTree)
    requires
        tree_without_eof(t),
    ensures
        forall|i: int| 0 <= i < flatten_tree(t).len() ==> !(#[trigger] flatten_tree(t)[i].0 is Eof),
    decreases t,
{
    match t {
        SpecTree::Token(_, _) => {},
        SpecTree::Delimited(sp, d, ts) => {
            lemma_flatten_without_eof(ts);
            let open = seq![(SpecToken::OpenDelimiter(d), open_span(sp))];
            let close = seq![(SpecToken::CloseDelimiter(d), close_span(sp))];
            let mid = flatten(ts);
            assert(flatten_tree(t) == open + mid + close);
            assert forall|i: int| 0 <= i < flatten_tree(t).len() implies !(#[trigger] flatten_tree(t)[i].0 is Eof) by {
                if i == 0 {
                } else if i <= mid.len() {
                    assert(flatten_tree(t)[i] == mid[i - 1]);
                } else {
                    assert(flatten_tree(t)[i] == close[0]);
                }
            }
        },
    }
}

} // verus!
