//! The grammar of macro parameter lists, written against the event parser:
//! `(type t, role r)`, each parameter a keyword and a name.

use vstd::prelude::*;
use crate::syntax::ast::{keyword_named, Keyword, SyntaxKind};
use crate::syntax::parser::{
    balanced, lemma_balanced_concat, lemma_leaves_balanced, lemma_node_balanced, Event, Parser,
    ParserInput,
};
use crate::syntax::token::TokenType;

verus! {

/// The leaf that a macro parameter starts with at `q`: the keyword its
/// text spells, else a plain name; `None` when neither is there.
pub open spec fn param_head(input: ParserInput, q: int) -> Option<SyntaxKind> {
    match keyword_named(input.text_at(q)) {
        Some(kw) => Some(SyntaxKind::Keyword(kw)),
        None => if input.kind_at(q) == SyntaxKind::Token(TokenType::Name) {
            Some(SyntaxKind::Token(TokenType::Name))
        } else {
            None
        },
    }
}

/// The node of the macro parameter whose first token is at `q`, with the
/// leaf `head`, and the position after it: the name that follows is taken
/// when there is one.
pub open spec fn param_item(input: ParserInput, q: int, head: SyntaxKind) -> (Seq<Event>, int) {
    let named = input.kind_at(q + 1) == SyntaxKind::Token(TokenType::Name);
    let body = seq![Event::Begin(SyntaxKind::MacroParamListItem, None), Event::Leaf(head)] + if named {
        seq![Event::Leaf(SyntaxKind::Token(TokenType::Name))]
    } else {
        Seq::empty()
    } + seq![Event::End];
    (body, if named { q + 2 } else { q + 1 })
}

/// The parameters from `q` on, each but the last followed by a comma, and
/// the position after them.
pub open spec fn param_items(input: ParserInput, q: int) -> (Seq<Event>, int)
    decreases input.spec_len() - q,
{
    match param_head(input, q) {
        None => (Seq::empty(), q),
        Some(head) => {
            let (body, end) = param_item(input, q, head);
            if input.kind_at(end) == SyntaxKind::Token(TokenType::Comma) {
                let (rest, fin) = param_items(input, end + 1);
                (body.push(Event::Leaf(SyntaxKind::Token(TokenType::Comma))) + rest, fin)
            } else {
                (body, end)
            }
        },
    }
}

/// A parameter list at `q`: its node and the position after it.  The
/// parentheses are taken where they are, and the parameters are read
/// unless the list closes at once.
pub open spec fn param_list(input: ParserInput, q: int) -> (Seq<Event>, int) {
    let open = input.kind_at(q) == SyntaxKind::Token(TokenType::OpenParenthesis);
    let q1 = if open { q + 1 } else { q };
    let (items, q2) = if input.kind_at(q1) == SyntaxKind::Token(TokenType::CloseParenthesis) {
        (Seq::empty(), q1)
    } else {
        param_items(input, q1)
    };
    let close = input.kind_at(q2) == SyntaxKind::Token(TokenType::CloseParenthesis);
    let events = seq![Event::Begin(SyntaxKind::MacroParamList, None)] + if open {
        seq![Event::Leaf(SyntaxKind::Token(TokenType::OpenParenthesis))]
    } else {
        Seq::empty()
    } + items + if close {
        seq![Event::Leaf(SyntaxKind::Token(TokenType::CloseParenthesis))]
    } else {
        Seq::empty()
    } + seq![Event::End];
    (events, if close { q2 + 1 } else { q2 })
}

/// Parses one macro parameter, a keyword and a name, and the comma after
/// it; says whether a comma was there.  Where the parameter does not start
/// with a keyword or a name, nothing is consumed.
pub fn parse_macro_param_list_item(p: &mut Parser) -> (r: bool)
    requires
        old(p).spec_pos() + 3 <= usize::MAX,
    ensures
        final(p).spec_input() == old(p).spec_input(),
        match param_head(old(p).spec_input(), old(p).spec_pos()) {
            None => !r && final(p).spec_events() == old(p).spec_events() && final(p).spec_pos()
                == old(p).spec_pos(),
            Some(head) => {
                let (body, end) = param_item(old(p).spec_input(), old(p).spec_pos(), head);
                let comma = old(p).spec_input().kind_at(end) == SyntaxKind::Token(TokenType::Comma);
                &&& r == comma
                &&& final(p).spec_events() == old(p).spec_events() + body + if comma {
                    seq![Event::Leaf(SyntaxKind::Token(TokenType::Comma))]
                } else {
                    Seq::empty()
                }
                &&& final(p).spec_pos() == if comma { end + 1 } else { end }
            },
        },
{
    let ghost e = p.spec_events();
    let ghost q = p.spec_pos();
    let ghost input = p.spec_input();
    let m = p.mark();
    match Keyword::from_str(p.current_text()) {
        Some(kw) => p.bump_as(SyntaxKind::Keyword(kw)),
        None => {
            if p.at(SyntaxKind::Token(TokenType::Name)) {
                p.error("expected keyword");
                p.bump();
            } else {
                m.abandon(p);
                proof {
                    assert(e.push(Event::BeginMarker).drop_last() =~= e);
                }
                return false;
            }
        },
    }
    let ghost head = param_head(input, q)->0;
    p.expect(SyntaxKind::Token(TokenType::Name));
    let ghost mid = p.spec_events();
    let _c = m.complete(p, SyntaxKind::MacroParamListItem);
    proof {
        let (body, end) = param_item(input, q, head);
        assert(p.spec_events() =~= e + body);
    }
    let r = p.eat(SyntaxKind::Token(TokenType::Comma));
    proof {
        let (body, end) = param_item(input, q, head);
        if r {
            assert(p.spec_events() =~= e + body + seq![
                Event::Leaf(SyntaxKind::Token(TokenType::Comma)),
            ]);
        } else {
            assert(p.spec_events() =~= e + body + Seq::<Event>::empty());
        }
    }
    r
}

/// Parses a macro parameter list, `(` parameters `)`, into one node.
pub fn parse_macro_param_list(p: &mut Parser)
    requires
        old(p).spec_pos() + 5 <= usize::MAX,
        old(p).spec_input().spec_len() + 5 <= usize::MAX,
    ensures
        final(p).spec_input() == old(p).spec_input(),
        final(p).spec_events() == old(p).spec_events() + param_list(
            old(p).spec_input(),
            old(p).spec_pos(),
        ).0,
        final(p).spec_pos() == param_list(old(p).spec_input(), old(p).spec_pos()).1,
{
    let ghost e = p.spec_events();
    let ghost q = p.spec_pos();
    let ghost input = p.spec_input();
    let m = p.mark();
    p.expect(SyntaxKind::Token(TokenType::OpenParenthesis));
    let ghost q1 = p.spec_pos();
    let ghost before = p.spec_events();
    if !p.at(SyntaxKind::Token(TokenType::CloseParenthesis)) {
        loop
            invariant_except_break
                p.spec_pos() <= q1 || p.spec_pos() <= input.spec_len(),
                before.len() <= p.spec_events().len(),
                p.spec_events().subrange(0, before.len() as int) == before,
                param_items(input, q1).0 == p.spec_events().subrange(
                    before.len() as int,
                    p.spec_events().len() as int,
                ) + param_items(input, p.spec_pos()).0,
                param_items(input, q1).1 == param_items(input, p.spec_pos()).1,
            invariant
                p.spec_input() == input,
                input.spec_len() + 5 <= usize::MAX,
                q1 + 4 <= usize::MAX,
            ensures
                p.spec_input() == input,
                p.spec_events() == before + param_items(input, q1).0,
                p.spec_pos() == param_items(input, q1).1,
                p.spec_pos() <= q1 + 2 || p.spec_pos() <= input.spec_len() + 2,
            decreases input.spec_len() - p.spec_pos(),
        {
            let ghost ev = p.spec_events();
            let ghost pos = p.spec_pos();
            let more = parse_macro_param_list_item(p);
            let ghost added = p.spec_events().subrange(ev.len() as int, p.spec_events().len() as int);
            proof {
                assert(p.spec_events() =~= ev + added);
                assert(p.spec_events().subrange(0, before.len() as int) =~= before);
                assert(p.spec_events().subrange(before.len() as int, p.spec_events().len() as int)
                    =~= ev.subrange(before.len() as int, ev.len() as int) + added);
            }
            if !more {
                proof {
                    assert(param_items(input, pos).0 =~= added);
                    assert(p.spec_events() =~= before + param_items(input, q1).0);
                }
                break;
            }
            proof {
                assert(param_items(input, pos).0 =~= added + param_items(input, p.spec_pos()).0);
            }
        }
    } else {
        proof {
            assert(p.spec_events() =~= before + Seq::<Event>::empty());
        }
    }
    p.expect(SyntaxKind::Token(TokenType::CloseParenthesis));
    let _c = m.complete(p, SyntaxKind::MacroParamList);
    proof {
        assert(p.spec_events() =~= e + param_list(input, q).0);
    }
}

} // verus!

verus! {

/// The node of one parameter is balanced.
proof fn lemma_param_item_balanced(input: ParserInput, q: int, head: SyntaxKind)
    ensures
        balanced(param_item(input, q, head).0),
{
    let named = input.kind_at(q + 1) == SyntaxKind::Token(TokenType::Name);
    let leaves = seq![Event::Leaf(head)] + if named {
        seq![Event::Leaf(SyntaxKind::Token(TokenType::Name))]
    } else {
        Seq::empty()
    };
    lemma_leaves_balanced(leaves);
    lemma_node_balanced(SyntaxKind::MacroParamListItem, leaves);
    assert(param_item(input, q, head).0 =~= seq![
        Event::Begin(SyntaxKind::MacroParamListItem, None),
    ] + leaves + seq![Event::End]);
}

/// The parameters from `q` on make a balanced run of events.
proof fn lemma_param_items_balanced(input: ParserInput, q: int)
    ensures
        balanced(param_items(input, q).0),
    decreases input.spec_len() - q,
{
    match param_head(input, q) {
        None => {
            lemma_leaves_balanced(Seq::empty());
        },
        Some(head) => {
            let (body, end) = param_item(input, q, head);
            lemma_param_item_balanced(input, q, head);
            if input.kind_at(end) == SyntaxKind::Token(TokenType::Comma) {
                let comma = seq![Event::Leaf(SyntaxKind::Token(TokenType::Comma))];
                lemma_leaves_balanced(comma);
                lemma_param_items_balanced(input, end + 1);
                lemma_balanced_concat(body, comma);
                lemma_balanced_concat(body + comma, param_items(input, end + 1).0);
                assert(body.push(Event::Leaf(SyntaxKind::Token(TokenType::Comma))) =~= body
                    + comma);
            }
        },
    }
}

/// Every node that parsing a macro parameter list begins, it ends: the
/// events it emits are balanced, whatever the input.
pub proof fn lemma_param_list_balanced(input: ParserInput, q: int)
    ensures
        balanced(param_list(input, q).0),
{
    let open = input.kind_at(q) == SyntaxKind::Token(TokenType::OpenParenthesis);
    let q1 = if open { q + 1 } else { q };
    let (items, q2) = if input.kind_at(q1) == SyntaxKind::Token(TokenType::CloseParenthesis) {
        (Seq::empty(), q1)
    } else {
        param_items(input, q1)
    };
    let close = input.kind_at(q2) == SyntaxKind::Token(TokenType::CloseParenthesis);
    let before = if open {
        seq![Event::Leaf(SyntaxKind::Token(TokenType::OpenParenthesis))]
    } else {
        Seq::empty()
    };
    let after = if close {
        seq![Event::Leaf(SyntaxKind::Token(TokenType::CloseParenthesis))]
    } else {
        Seq::empty()
    };
    lemma_leaves_balanced(before);
    lemma_leaves_balanced(after);
    if input.kind_at(q1) == SyntaxKind::Token(TokenType::CloseParenthesis) {
        lemma_leaves_balanced(items);
    } else {
        lemma_param_items_balanced(input, q1);
    }
    lemma_balanced_concat(before, items);
    lemma_balanced_concat(before + items, after);
    lemma_node_balanced(SyntaxKind::MacroParamList, before + items + after);
    assert(param_list(input, q).0 =~= seq![Event::Begin(SyntaxKind::MacroParamList, None)] + (
    before + items + after) + seq![Event::End]);
}

} // verus!

