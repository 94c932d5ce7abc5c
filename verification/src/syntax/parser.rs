//! A recursive-descent parser that emits its output as a flat list of
//! events marking where the nodes of a syntax tree begin and end, so that
//! the grammar and the construction of the tree can evolve separately.
//!
//! The parser sees only the tokens that carry meaning: comments and white
//! space are left out of its input.

use vstd::prelude::*;
use vstd::string::*;
use vstd::utf8::*;
use crate::syntax::ast::SyntaxKind;
use crate::syntax::token::{Token, TokenType};
use crate::text::{str_eq, utf8_str};

verus! {

broadcast use vstd::utf8::group_utf8_lib;

/// One step of the parser's output.
#[derive(Clone, Copy, Debug, PartialEq, Eq, Structural)]
pub enum Event {
    /// A node was begun whose kind is not known yet.
    BeginMarker,
    /// A node of the given kind begins here; the number, where present, is
    /// how many events further on the node that encloses it begins.
    Begin(SyntaxKind, Option<usize>),
    /// A leaf of the given kind.
    Leaf(SyntaxKind),
    /// The innermost open node ends here.
    End,
}

/// The tokens of `ts` that are not trivia, in order.
pub open spec fn non_trivia(ts: Seq<Token>) -> Seq<Token>
    decreases ts.len(),
{
    if ts.len() == 0 {
        Seq::empty()
    } else {
        let rest = non_trivia(ts.drop_last());
        let t = ts.last();
        if t.0 == TokenType::LineComment || t.0 == TokenType::Whitespace {
            rest
        } else {
            rest.push(t)
        }
    }
}

/// The text that `t` covers in `bytes`: empty where its range is not a
/// well-formed piece of UTF-8 within `bytes`.
pub open spec fn token_text(bytes: Seq<u8>, t: Token) -> Seq<char> {
    if t.1 <= t.2 && t.2 <= bytes.len() && valid_utf8(bytes.subrange(t.1 as int, t.2 as int)) {
        decode_utf8(bytes.subrange(t.1 as int, t.2 as int))
    } else {
        Seq::empty()
    }
}

/// The input of the parser: the source text and those of its tokens that
/// are not trivia.
pub struct ParserInput<'a> {
    text: &'a str,
    tokens: Vec<Token>,
}

impl<'a> ParserInput<'a> {
    /// The number of tokens.
    pub closed spec fn spec_len(&self) -> int {
        self.tokens@.len() as int
    }

    /// The tokens.
    pub closed spec fn spec_tokens(&self) -> Seq<Token> {
        self.tokens@
    }

    /// The bytes of the source text.
    pub closed spec fn spec_bytes(&self) -> Seq<u8> {
        self.text.spec_bytes()
    }

    /// The kind of the token at `i`: `Eof` past the last token.
    pub open spec fn kind_at(&self, i: int) -> SyntaxKind {
        if 0 <= i < self.spec_len() {
            SyntaxKind::Token(self.spec_tokens()[i].0)
        } else {
            SyntaxKind::Token(TokenType::Eof)
        }
    }

    /// The text of the token at `i`: empty past the last token.
    pub open spec fn text_at(&self, i: int) -> Seq<char> {
        if 0 <= i < self.spec_len() {
            token_text(self.spec_bytes(), self.spec_tokens()[i])
        } else {
            Seq::empty()
        }
    }

    /// The input made of `text` and of the tokens of `tokens` that are not
    /// trivia.
    pub fn new(text: &'a str, tokens: &[Token]) -> (r: Self)
        ensures
            r.spec_tokens() == non_trivia(tokens@),
            r.spec_bytes() == text.spec_bytes(),
    {
        let mut kept: Vec<Token> = Vec::new();
        let n = tokens.len();
        let mut i: usize = 0;
        while i < n
            invariant
                n == tokens@.len(),
                i <= n,
                kept@ == non_trivia(tokens@.subrange(0, i as int)),
            decreases n - i,
        {
            let t = tokens[i];
            assert(tokens@.subrange(0, i as int) =~= tokens@.subrange(0, i + 1).drop_last());
            if !t.is_trivia() {
                kept.push(t);
            }
            i = i + 1;
        }
        assert(tokens@.subrange(0, n as int) =~= tokens@);
        ParserInput { text, tokens: kept }
    }

    /// The kind of the token at `i`: `Eof` past the last token.
    pub fn kind(&self, i: usize) -> (r: SyntaxKind)
        ensures
            r == self.kind_at(i as int),
    {
        if i < self.tokens.len() {
            SyntaxKind::Token(self.tokens[i].0)
        } else {
            SyntaxKind::Token(TokenType::Eof)
        }
    }

    /// The text of the token at `i`: empty past the last token.
    pub fn text(&self, i: usize) -> (r: &'a str)
        ensures
            r@ == self.text_at(i as int),
    {
        if i >= self.tokens.len() {
            proof {
                reveal_strlit("");
            }
            return "";
        }
        let t = self.tokens[i];
        let bytes = self.text.as_bytes();
        if t.1 <= t.2 && t.2 <= bytes.len() {
            match utf8_str(&bytes[t.1..t.2]) {
                Some(s) => {
                    proof {
                        assert(bytes@.subrange(t.1 as int, t.2 as int) == s.spec_bytes());
                        encode_utf8_decode_utf8(s@);
                    }
                    s
                },
                None => {
                    proof {
                        reveal_strlit("");
                    }
                    ""
                },
            }
        } else {
            proof {
                reveal_strlit("");
            }
            ""
        }
    }
}

/// What `mark` does to the events: a node of unknown kind begins.
pub open spec fn marked(events: Seq<Event>) -> Seq<Event> {
    events.push(Event::BeginMarker)
}

/// What abandoning the marker at `pos` does to the events: the node it
/// began is dropped when nothing has been emitted since.
pub open spec fn abandoned(events: Seq<Event>, pos: int) -> Seq<Event> {
    if pos == events.len() - 1 {
        events.drop_last()
    } else {
        events
    }
}

/// What completing the marker at `pos` as a node of kind `kind` does to
/// the events: the node gets its kind and ends here.
pub open spec fn completed(events: Seq<Event>, pos: int, kind: SyntaxKind) -> Seq<Event> {
    events.update(pos, Event::Begin(kind, None)).push(Event::End)
}

/// What preceding the completed node that begins at `pos` does to the
/// events: a new node begins at the end, and the completed node records
/// how far on its new parent begins.
pub open spec fn preceded(events: Seq<Event>, pos: int) -> Seq<Event> {
    match events[pos] {
        Event::Begin(kind, _) => events.update(
            pos,
            Event::Begin(kind, Some((events.len() - pos) as usize)),
        ).push(Event::BeginMarker),
        _ => events.push(Event::BeginMarker),
    }
}

/// A recursive-descent parser over the tokens of a `ParserInput`, which
/// emits events in place of building a tree.
pub struct Parser<'a> {
    events: Vec<Event>,
    input: ParserInput<'a>,
    pos: usize,
}

impl<'a> Parser<'a> {
    /// The events emitted so far.
    pub closed spec fn spec_events(&self) -> Seq<Event> {
        self.events@
    }

    /// The input.
    pub closed spec fn spec_input(&self) -> ParserInput<'a> {
        self.input
    }

    /// The index of the current token.
    pub closed spec fn spec_pos(&self) -> int {
        self.pos as int
    }

    /// The kind of the token `offset` places after the current one.
    pub open spec fn kind_ahead(&self, offset: int) -> SyntaxKind {
        self.spec_input().kind_at(self.spec_pos() + offset)
    }

    /// The text of the token `offset` places after the current one.
    pub open spec fn text_ahead(&self, offset: int) -> Seq<char> {
        self.spec_input().text_at(self.spec_pos() + offset)
    }

    /// A parser at the first token of `input`, with no events emitted.
    pub fn new(input: ParserInput<'a>) -> (r: Self)
        ensures
            r.spec_events() == Seq::<Event>::empty(),
            r.spec_input() == input,
            r.spec_pos() == 0,
    {
        Parser { events: Vec::new(), input, pos: 0 }
    }

    /// Whether the parser is at a token of the `expected` kind.
    pub fn at(&self, expected: SyntaxKind) -> (r: bool)
        ensures
            r == (self.kind_ahead(0) == expected),
    {
        self.current() == expected
    }

    /// Whether the text of the current token is `text`.
    pub fn at_text(&self, text: &str) -> (r: bool)
        ensures
            r == (self.text_ahead(0) == text@),
    {
        str_eq(self.current_text(), text)
    }

    /// Emits a leaf for the current token and moves to the next one.
    pub fn bump(&mut self)
        requires
            old(self).spec_pos() < usize::MAX,
        ensures
            final(self).spec_events() == old(self).spec_events().push(
                Event::Leaf(old(self).kind_ahead(0)),
            ),
            final(self).spec_pos() == old(self).spec_pos() + 1,
            final(self).spec_input() == old(self).spec_input(),
    {
        let k = self.current();
        self.events.push(Event::Leaf(k));
        self.pos = self.pos + 1;
    }

    /// Emits a leaf of the given `kind` for the current token and moves to
    /// the next one.
    pub fn bump_as(&mut self, kind: SyntaxKind)
        requires
            old(self).spec_pos() < usize::MAX,
        ensures
            final(self).spec_events() == old(self).spec_events().push(Event::Leaf(kind)),
            final(self).spec_pos() == old(self).spec_pos() + 1,
            final(self).spec_input() == old(self).spec_input(),
    {
        self.events.push(Event::Leaf(kind));
        self.pos = self.pos + 1;
    }

    /// The kind of the current token.
    pub fn current(&self) -> (r: SyntaxKind)
        ensures
            r == self.kind_ahead(0),
    {
        self.nth(0)
    }

    /// The text of the current token.
    pub fn current_text(&self) -> (r: &'a str)
        ensures
            r@ == self.text_ahead(0),
    {
        self.nth_text(0)
    }

    /// Consumes the current token when it is of the `expected` kind, and
    /// says whether it was.
    pub fn eat(&mut self, expected: SyntaxKind) -> (r: bool)
        requires
            old(self).spec_pos() < usize::MAX,
        ensures
            r == (old(self).kind_ahead(0) == expected),
            final(self).spec_input() == old(self).spec_input(),
            r ==> final(self).spec_events() == old(self).spec_events().push(Event::Leaf(expected))
                && final(self).spec_pos() == old(self).spec_pos() + 1,
            !r ==> final(self).spec_events() == old(self).spec_events() && final(self).spec_pos()
                == old(self).spec_pos(),
    {
        if self.at(expected) {
            self.bump();
            return true;
        }
        false
    }

    /// Notes that an error occurred at the current position; nothing is
    /// recorded of it.
    pub fn error(&mut self, _message: &str)
        ensures
            final(self).spec_events() == old(self).spec_events(),
            final(self).spec_pos() == old(self).spec_pos(),
            final(self).spec_input() == old(self).spec_input(),
    {
    }

    /// Consumes the current token when it is of the `expected` kind, and
    /// notes an error when it is not.
    pub fn expect(&mut self, expected: SyntaxKind)
        requires
            old(self).spec_pos() < usize::MAX,
        ensures
            final(self).spec_input() == old(self).spec_input(),
            old(self).kind_ahead(0) == expected ==> final(self).spec_events()
                == old(self).spec_events().push(Event::Leaf(expected)) && final(self).spec_pos()
                == old(self).spec_pos() + 1,
            old(self).kind_ahead(0) != expected ==> final(self).spec_events()
                == old(self).spec_events() && final(self).spec_pos() == old(self).spec_pos(),
    {
        if !self.eat(expected) {
            self.error("expected a different token");
        }
    }

    /// Consumes the current token when its kind is one of `items`, and
    /// notes an error when it is not.
    pub fn expect_one_of(&mut self, items: Vec<SyntaxKind>)
        requires
            old(self).spec_pos() < usize::MAX,
        ensures
            final(self).spec_input() == old(self).spec_input(),
            items@.contains(old(self).kind_ahead(0)) ==> final(self).spec_events()
                == old(self).spec_events().push(Event::Leaf(old(self).kind_ahead(0)))
                && final(self).spec_pos() == old(self).spec_pos() + 1,
            !items@.contains(old(self).kind_ahead(0)) ==> final(self).spec_events()
                == old(self).spec_events() && final(self).spec_pos() == old(self).spec_pos(),
    {
        let current_kind = self.current();
        let n = items.len();
        let mut i: usize = 0;
        let mut found = false;
        while i < n
            invariant
                n == items@.len(),
                i <= n,
                found == (exists|j: int| 0 <= j < i && items@[j] == current_kind),
            decreases n - i,
        {
            if items[i] == current_kind {
                found = true;
            }
            i = i + 1;
        }
        if found {
            self.bump();
        } else {
            self.error("expected one of several tokens");
        }
    }

    /// Consumes the current token when its text is one of `items`, and
    /// notes an error when it is not.
    pub fn expect_one_of_str(&mut self, items: Vec<&str>)
        requires
            old(self).spec_pos() < usize::MAX,
        ensures
            final(self).spec_input() == old(self).spec_input(),
            (exists|j: int| 0 <= j < items@.len() && items@[j]@ == old(self).text_ahead(0))
                ==> final(self).spec_events() == old(self).spec_events().push(
                Event::Leaf(old(self).kind_ahead(0)),
            ) && final(self).spec_pos() == old(self).spec_pos() + 1,
            !(exists|j: int| 0 <= j < items@.len() && items@[j]@ == old(self).text_ahead(0))
                ==> final(self).spec_events() == old(self).spec_events() && final(self).spec_pos()
                == old(self).spec_pos(),
    {
        let current_text = self.current_text();
        let n = items.len();
        let mut i: usize = 0;
        let mut found = false;
        while i < n
            invariant
                n == items@.len(),
                i <= n,
                found == (exists|j: int| 0 <= j < i && items@[j]@ == current_text@),
            decreases n - i,
        {
            if str_eq(items[i], current_text) {
                found = true;
            }
            i = i + 1;
        }
        if found {
            self.bump();
        } else {
            self.error("expected one of several words");
        }
    }

    /// Begins a node whose kind is not known yet, at the current position.
    pub fn mark(&mut self) -> (m: Marker)
        ensures
            final(self).spec_events() == marked(old(self).spec_events()),
            final(self).spec_pos() == old(self).spec_pos(),
            final(self).spec_input() == old(self).spec_input(),
            m.spec_pos() == old(self).spec_events().len(),
    {
        self.events.push(Event::BeginMarker);
        Marker::new(self.events.len() - 1)
    }

    /// The events emitted so far.
    pub fn events(&self) -> (r: &Vec<Event>)
        ensures
            r@ == self.spec_events(),
    {
        &self.events
    }

    /// The index of the current token.
    pub fn pos(&self) -> (r: usize)
        ensures
            r == self.spec_pos(),
    {
        self.pos
    }

    /// The kind of the token `offset` places after the current one.
    pub fn nth(&self, offset: usize) -> (r: SyntaxKind)
        requires
            self.spec_pos() + offset <= usize::MAX,
        ensures
            r == self.kind_ahead(offset as int),
    {
        self.input.kind(self.pos + offset)
    }

    /// The text of the token `offset` places after the current one.
    pub fn nth_text(&self, offset: usize) -> (r: &'a str)
        requires
            self.spec_pos() + offset <= usize::MAX,
        ensures
            r@ == self.text_ahead(offset as int),
    {
        self.input.text(self.pos + offset)
    }
}

/// The start of a node whose kind is not known yet: it must be completed
/// or abandoned.
pub struct Marker {
    pos: usize,
}

impl Marker {
    /// The index of the event that begins the node.
    pub closed spec fn spec_pos(&self) -> int {
        self.pos as int
    }

    /// A marker for the event at `pos`.
    pub fn new(pos: usize) -> (r: Self)
        ensures
            r.spec_pos() == pos,
    {
        Marker { pos }
    }

    /// Gives the node up: its event is removed when nothing has been
    /// emitted since it began.
    pub fn abandon(self, parser: &mut Parser)
        requires
            old(parser).spec_events().len() > 0,
        ensures
            final(parser).spec_events() == abandoned(old(parser).spec_events(), self.spec_pos()),
            final(parser).spec_pos() == old(parser).spec_pos(),
            final(parser).spec_input() == old(parser).spec_input(),
    {
        if self.pos == parser.events.len() - 1 {
            parser.events.pop();
        }
    }

    /// Gives the node the kind `kind` and ends it here.
    pub fn complete(self, parser: &mut Parser, kind: SyntaxKind) -> (r: CompletedMarker)
        requires
            self.spec_pos() < old(parser).spec_events().len(),
            old(parser).spec_events()[self.spec_pos()] == Event::BeginMarker,
        ensures
            final(parser).spec_events() == completed(
                old(parser).spec_events(),
                self.spec_pos(),
                kind,
            ),
            final(parser).spec_pos() == old(parser).spec_pos(),
            final(parser).spec_input() == old(parser).spec_input(),
            r.spec_kind() == kind,
            r.spec_pos() == self.spec_pos(),
    {
        parser.events.set(self.pos, Event::Begin(kind, None));
        parser.events.push(Event::End);
        CompletedMarker::new(kind, self.pos)
    }
}

/// A node that was completed: its kind and the index of the event that
/// begins it.
pub struct CompletedMarker {
    kind: SyntaxKind,
    pos: usize,
}

impl CompletedMarker {
    /// The kind of the node.
    pub closed spec fn spec_kind(&self) -> SyntaxKind {
        self.kind
    }

    /// The index of the event that begins the node.
    pub closed spec fn spec_pos(&self) -> int {
        self.pos as int
    }

    /// A completed node of kind `kind` begun by the event at `pos`.
    pub fn new(kind: SyntaxKind, pos: usize) -> (r: Self)
        ensures
            r.spec_kind() == kind,
            r.spec_pos() == pos,
    {
        CompletedMarker { kind, pos }
    }

    /// Begins a new node that will enclose this one: the new node begins at
    /// the end of the events, and this node records how far on it begins.
    pub fn precede(self, p: &mut Parser) -> (m: Marker)
        requires
            self.spec_pos() < old(p).spec_events().len(),
            old(p).spec_events()[self.spec_pos()] is Begin,
        ensures
            final(p).spec_events() == preceded(old(p).spec_events(), self.spec_pos()),
            final(p).spec_pos() == old(p).spec_pos(),
            final(p).spec_input() == old(p).spec_input(),
            m.spec_pos() == old(p).spec_events().len(),
    {
        let m = p.mark();
        let kind = match p.events[self.pos] {
            Event::Begin(k, _) => k,
            _ => self.kind,
        };
        p.events.set(self.pos, Event::Begin(kind, Some(m.pos - self.pos)));
        m
    }
}

} // verus!

verus! {

/// Abandoning a marker right after it was made leaves the events as they
/// were before it.
pub proof fn lemma_mark_then_abandon(events: Seq<Event>)
    ensures
        abandoned(marked(events), events.len() as int) == events,
{
    assert(marked(events).drop_last() =~= events);
}

/// Completing a marker right after it was made adds an empty node of the
/// given kind: its beginning and its end.
pub proof fn lemma_mark_then_complete(events: Seq<Event>, kind: SyntaxKind)
    ensures
        completed(marked(events), events.len() as int, kind) == events + seq![
            Event::Begin(kind, None),
            Event::End,
        ],
{
    assert(completed(marked(events), events.len() as int, kind) =~= events + seq![
        Event::Begin(kind, None),
        Event::End,
    ]);
}

/// Preceding a completed node keeps its kind, and the distance it records
/// leads to the node begun in front of it, which is the last event.
pub proof fn lemma_precede_points_to_parent(events: Seq<Event>, pos: int)
    requires
        0 <= pos < events.len(),
        events.len() <= usize::MAX,
        events[pos] is Begin,
    ensures
        ({
            let after = preceded(events, pos);
            &&& after.len() == events.len() + 1
            &&& after[after.len() - 1] == Event::BeginMarker
            &&& after[pos] matches Event::Begin(k, Some(d)) && events[pos] matches Event::Begin(
                k0,
                _,
            ) && k == k0 && pos + d == after.len() - 1
            &&& forall|i: int| 0 <= i < events.len() && i != pos ==> after[i] == events[i]
        }),
{
}

} // verus!

verus! {

/// How many nodes `events` leaves open: those begun less those ended.
pub open spec fn open_nodes(events: Seq<Event>) -> int
    decreases events.len(),
{
    if events.len() == 0 {
        0
    } else {
        open_nodes(events.drop_last()) + match events.last() {
            Event::BeginMarker => 1int,
            Event::Begin(_, _) => 1int,
            Event::Leaf(_) => 0int,
            Event::End => -1int,
        }
    }
}

/// The events nest: no prefix ends more nodes than it began, and all the
/// nodes begun are ended.
pub open spec fn balanced(events: Seq<Event>) -> bool {
    &&& open_nodes(events) == 0
    &&& forall|i: int| 0 <= i <= events.len() ==> open_nodes(#[trigger] events.take(i)) >= 0
}

/// The open nodes of two runs of events add up.
pub proof fn lemma_open_nodes_concat(a: Seq<Event>, b: Seq<Event>)
    ensures
        open_nodes(a + b) == open_nodes(a) + open_nodes(b),
    decreases b.len(),
{
    if b.len() == 0 {
        assert(a + b =~= a);
    } else {
        lemma_open_nodes_concat(a, b.drop_last());
        assert((a + b).drop_last() =~= a + b.drop_last());
    }
}

/// Two balanced runs of events make a balanced run.
pub proof fn lemma_balanced_concat(a: Seq<Event>, b: Seq<Event>)
    requires
        balanced(a),
        balanced(b),
    ensures
        balanced(a + b),
{
    lemma_open_nodes_concat(a, b);
    assert forall|i: int| 0 <= i <= (a + b).len() implies open_nodes(#[trigger] (a + b).take(i))
        >= 0 by {
        if i <= a.len() {
            assert((a + b).take(i) =~= a.take(i));
        } else {
            assert((a + b).take(i) =~= a + b.take(i - a.len()));
            lemma_open_nodes_concat(a, b.take(i - a.len()));
            assert(a.take(a.len() as int) =~= a);
        }
    }
}

/// A run of leaves is balanced.
pub proof fn lemma_leaves_balanced(ls: Seq<Event>)
    requires
        forall|i: int| 0 <= i < ls.len() ==> ls[i] is Leaf,
    ensures
        balanced(ls),
    decreases ls.len(),
{
    if ls.len() > 0 {
        lemma_leaves_balanced(ls.drop_last());
        assert forall|i: int| 0 <= i <= ls.len() implies open_nodes(#[trigger] ls.take(i)) >= 0 by {
            if i < ls.len() {
                assert(ls.take(i) =~= ls.drop_last().take(i));
            } else {
                assert(ls.take(i) =~= ls);
            }
        }
    } else {
        assert forall|i: int| 0 <= i <= ls.len() implies open_nodes(#[trigger] ls.take(i)) >= 0 by {
            assert(ls.take(i).len() == 0);
        }
    }
}

/// A node that begins, holds a balanced run, and ends is balanced.
pub proof fn lemma_node_balanced(kind: SyntaxKind, inner: Seq<Event>)
    requires
        balanced(inner),
    ensures
        balanced(seq![Event::Begin(kind, None)] + inner + seq![Event::End]),
{
    let head = seq![Event::Begin(kind, None)];
    let tail = seq![Event::End];
    let all = head + inner + tail;
    assert(open_nodes(head) == 1) by {
        reveal_with_fuel(open_nodes, 2);
        assert(head.drop_last() =~= Seq::<Event>::empty());
    }
    assert(open_nodes(tail) == -1) by {
        reveal_with_fuel(open_nodes, 2);
        assert(tail.drop_last() =~= Seq::<Event>::empty());
    }
    lemma_open_nodes_concat(head, inner);
    lemma_open_nodes_concat(head + inner, tail);
    assert forall|i: int| 0 <= i <= all.len() implies open_nodes(#[trigger] all.take(i)) >= 0 by {
        if i == 0 {
            assert(all.take(i).len() == 0);
        } else if i <= 1 + inner.len() {
            assert(all.take(i) =~= head + inner.take(i - 1));
            lemma_open_nodes_concat(head, inner.take(i - 1));
        } else {
            assert(all.take(i) =~= all);
        }
    }
}

} // verus!

verus! {

/// The event index of a marker is never negative.
pub proof fn lemma_marker_pos(m: &Marker)
    ensures
        0 <= m.spec_pos() <= usize::MAX,
{
}

/// The event index of a completed marker is never negative.
pub proof fn lemma_completed_marker_pos(m: &CompletedMarker)
    ensures
        0 <= m.spec_pos() <= usize::MAX,
{
}

} // verus!

