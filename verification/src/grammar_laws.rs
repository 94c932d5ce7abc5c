//! What the parsers and the lexer produce, stated in terms of the input:
//! which bytes each field of a result comes from, how operators bind, and
//! which tokens the lexer forms.

use vstd::prelude::*;
use vstd::utf8::*;
use crate::ast::{BinaryOp, UnaryOp, SpecExpr, SpecMacroParameter, SpecStatement, SymbolType, TypeSpecifier};
use crate::parser::{spec_if_else, spec_macro_param, spec_stmts_from};
use crate::expr::{spec_binexp, spec_expr, spec_primary, spec_unary};
use crate::scan::{SOutcome, ident_len, kw_if, lemma_sp, sp, spec_char, spec_tag};
use crate::security_attributes::{spec_category_range, spec_context, spec_level};
use crate::syntax::lexer::lex_from;
use crate::syntax::token::TokenType;

verus! {

/// The text of the identifier that starts at `a`: the longest run of
/// identifier bytes there, read as UTF-8.
pub open spec fn word_at(s: Seq<u8>, a: int) -> Seq<char> {
    decode_utf8(s.subrange(a, a + ident_len(s, a)))
}

/// A category range `lo.hi` holds, in this order, the identifier written
/// before the dot and the one written after it.
pub proof fn lemma_category_range_fields(s: Seq<u8>, p: int)
    ensures
        spec_category_range(s, p) matches SOutcome::Done(q, SpecExpr::CategoryRange(lo, hi)) ==> {
            let a = sp(s, p);
            let dot = sp(s, a + ident_len(s, a));
            let b = sp(s, dot + 1);
            &&& s[dot] == 0x2e
            &&& lo == word_at(s, a)
            &&& hi == word_at(s, b)
        },
{
}

/// A macro parameter `k n` has as its qualifier the symbol type that its
/// first word spells, and as its name the word after it.
pub proof fn lemma_macro_param_fields(s: Seq<u8>, p: int)
    ensures
        spec_macro_param(s, p) matches SOutcome::Done(q, param) ==> {
            let a = sp(s, p);
            let b = sp(s, a + ident_len(s, a));
            &&& SymbolType::spec_from(word_at(s, a)) == Some(param.qualifier)
            &&& param.name == word_at(s, b)
        },
{
}

/// Where `||` stands at the start of a token, the lexer reads one
/// `DoublePipe` token over both characters, never two `Pipe` tokens; the
/// same longest match holds of `&&`, `..` and `|=`.
pub proof fn lemma_two_character_operators(cs: Seq<char>, p: int)
    requires
        0 <= p,
        p + 1 < cs.len(),
    ensures
        cs[p] == '|' && cs[p + 1] == '|' ==> lex_from(cs, p)[0] == (TokenType::DoublePipe, p, p + 2),
        cs[p] == '&' && cs[p + 1] == '&' ==> lex_from(cs, p)[0] == (
            TokenType::DoubleAmpersand,
            p,
            p + 2,
        ),
        cs[p] == '.' && cs[p + 1] == '.' ==> lex_from(cs, p)[0] == (TokenType::DotDot, p, p + 2),
        cs[p] == '|' && cs[p + 1] == '=' ==> lex_from(cs, p)[0] == (TokenType::PipeEquals, p, p + 2),
{
}

} // verus!

verus! {

/// How loosely a binary operator binds: from loosest to tightest `||`,
/// `^^`, `&&`, `|`, `^`, `&`.
pub open spec fn binding_level(op: BinaryOp) -> int {
    match op {
        BinaryOp::ConditionalOr => 6,
        BinaryOp::ConditionalXor => 5,
        BinaryOp::ConditionalAnd => 4,
        BinaryOp::BitwiseOr => 3,
        BinaryOp::BitwiseXor => 2,
        BinaryOp::BitwiseAnd => 1,
    }
}

/// How a binary operator is written.
pub open spec fn operator_text(op: BinaryOp) -> Seq<u8> {
    match op {
        BinaryOp::ConditionalOr => seq![0x7cu8, 0x7c],
        BinaryOp::ConditionalXor => seq![0x5eu8, 0x5e],
        BinaryOp::ConditionalAnd => seq![0x26u8, 0x26],
        BinaryOp::BitwiseOr => seq![0x7cu8],
        BinaryOp::BitwiseXor => seq![0x5eu8],
        BinaryOp::BitwiseAnd => seq![0x26u8],
    }
}

/// No operator that binds more loosely than `level` stands in `e`, and
/// below each operator the left operand binds strictly tighter and the
/// right operand no looser: the shape that precedence and grouping to the
/// right give an expression written without parentheses.
pub open spec fn layered(e: SpecExpr, level: int) -> bool
    decreases e,
{
    match e {
        SpecExpr::Binary(a, op, b) => {
            &&& binding_level(op) <= level
            &&& layered(*a, binding_level(op) - 1)
            &&& layered(*b, binding_level(op))
        },
        _ => true,
    }
}

/// The input holds no opening parenthesis.
pub open spec fn without_parentheses(s: Seq<u8>) -> bool {
    forall|i: int| 0 <= i < s.len() ==> s[i] != 0x28
}

/// An operator of each binary node that a parse yields is written in the
/// input.
pub open spec fn operators_written(s: Seq<u8>, e: SpecExpr) -> bool {
    match e {
        SpecExpr::Binary(_, op, _) => exists|k: int|
            0 <= k && k + operator_text(op).len() <= s.len() && #[trigger] s.subrange(
                k,
                k + operator_text(op).len(),
            ) == operator_text(op),
        _ => true,
    }
}

/// Without parentheses, a prefix expression is a variable or a prefix
/// operator on one.
proof fn lemma_unary_plain(s: Seq<u8>, p: int)
    requires
        without_parentheses(s),
    ensures
        spec_unary(s, p) matches SOutcome::Done(_, e) ==> !(e is Binary),
{
}

/// An operator expression of level `level` parsed from input without
/// parentheses is layered at that level, and the operator at its top is
/// written in the input.
pub proof fn lemma_binexp_layered(s: Seq<u8>, p: int, level: int)
    requires
        without_parentheses(s),
        1 <= level <= 6,
    ensures
        spec_binexp(s, p, level) matches SOutcome::Done(_, e) ==> layered(e, level),
        spec_binexp(s, p, level) matches SOutcome::Done(_, e) ==> operators_written(s, e),
    decreases s.len() - p, level,
{
    if 0 <= p <= s.len() {
        lemma_sp(s, p);
        let a0 = sp(s, p);
        if level == 1 {
            lemma_unary_plain(s, a0);
        } else {
            lemma_binexp_layered(s, a0, level - 1);
        }
        let first = if level == 1 {
            spec_unary(s, a0)
        } else {
            spec_binexp(s, a0, level - 1)
        };
        if let SOutcome::Done(q, a) = first {
            assert(layered(a, level - 1) && operators_written(s, a));
            let q1 = sp(s, q);
            if let SOutcome::Done(c, _) = crate::expr::spec_op_tag(s, q1, level) {
                let d = sp(s, c);
                if p < d <= s.len() {
                    lemma_binexp_layered(s, d, level);
                    if let SOutcome::Done(r, b) = spec_binexp(s, d, level) {
                        let t = operator_text(crate::expr::op_of(level));
                        assert(s.subrange(q1, q1 + t.len()) =~= t);
                    }
                }
            }
        }
    }
}

/// Precedence: an expression written without parentheses parses to a tree
/// in which `||` binds loosest, then `^^`, `&&`, `|`, `^` and `&`, and in
/// which each operator was written in the input.  So `x || y && z` groups
/// as `x || (y && z)`.
pub proof fn lemma_expr_precedence(s: Seq<u8>, p: int)
    requires
        without_parentheses(s),
    ensures
        spec_expr(s, p) matches SOutcome::Done(_, e) ==> layered(e, 6) && operators_written(s, e),
{
    lemma_binexp_layered(s, p, 6);
}

} // verus!

verus! {

/// A security context `u:r:t` holds, in this order, the user, the role and
/// the type written in it.
pub proof fn lemma_context_fields(s: Seq<u8>, p: int)
    ensures
        spec_context(s, p) matches SOutcome::Done(
            q,
            SpecExpr::Context { user_id, role_id, type_id, .. },
        ) ==> {
            let a = sp(s, p);
            let c1 = sp(s, a + ident_len(s, a));
            let b = sp(s, c1 + 1);
            let c2 = sp(s, b + ident_len(s, b));
            let t = sp(s, c2 + 1);
            &&& s[c1] == 0x3a && s[c2] == 0x3a
            &&& user_id == word_at(s, a)
            &&& role_id == word_at(s, b)
            &&& type_id == word_at(s, t)
        },
{
}

/// A level `s:c` holds as its sensitivity the identifier written before
/// the colon.
pub proof fn lemma_level_fields(s: Seq<u8>, p: int)
    ensures
        spec_level(s, p) matches SOutcome::Done(q, SpecExpr::Level { sensitivity, .. }) ==> {
            &&& s[p + ident_len(s, p)] == 0x3a
            &&& sensitivity == word_at(s, p)
        },
{
}

/// A prefix expression that starts with `!` holds the logical not, and one
/// that starts with `~` the bitwise not.
pub proof fn lemma_unary_operator(s: Seq<u8>, p: int)
    ensures
        spec_unary(s, p) matches SOutcome::Done(q, SpecExpr::Unary(op, _)) ==> {
            let a = sp(s, p);
            &&& s[a] == 0x21 ==> op == UnaryOp::ConditionalNot
            &&& s[a] == 0x7e ==> op == UnaryOp::BitwiseNot
        },
{
}

} // verus!

