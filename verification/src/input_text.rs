//! Inputs on which the grammar always has a result: where the input is
//! well-formed UTF-8 and no identifier ends inside a character, every
//! parser started where a character begins stops, or fails, where a
//! character begins, so every identifier and every reported line it reads
//! is text.

use vstd::prelude::*;
use vstd::utf8::*;
use crate::ast::{AllowRuleType, BlockType, SymbolType, TypeSpecifier};
use crate::parser::{
    spec_abstract_mark, spec_args_from, spec_block_declaration, spec_branch, spec_comma_arg,
    spec_comma_param, spec_declaration, spec_else_if, spec_else_ifs_from, spec_if_else,
    spec_macro_argument_list, spec_macro_call, spec_macro_declaration, spec_macro_param,
    spec_macro_param_list, spec_params_from, spec_statement, spec_stmts_from,
    spec_symbol_declaration,
};
use crate::type_enforcement::{spec_access_vector, spec_allow_rule, spec_class_and_permissions};
use crate::expr::{
    spec_binexp, spec_expr, spec_list_item, spec_list_rest, spec_op_tag, spec_paren_expr,
    spec_paren_list, spec_primary, spec_unary, spec_variable_list,
};
use crate::name::{spec_type_specifier, spec_variable};
use crate::scan::{
    Failure, SOutcome, ident_len, is_continuation, is_identifier_byte, is_space, kw_abstract,
    kw_else, kw_elseif, kw_if, kw_macro, lemma_sp, sp, spec_char, spec_identifier,
    spec_identifiers_are_text, spec_tag, spec_tag1, spec_tag2,
};
use crate::security_attributes::{
    spec_category_range, spec_category_range_or_id, spec_context, spec_context_tail, spec_level,
    spec_level_or_id, spec_level_range,
};

verus! {



/// The input can hold its offsets, and the condition of
/// `spec_identifiers_are_text` holds of it.
pub open spec fn text_input(s: Seq<u8>) -> bool {
    &&& spec_identifiers_are_text(s)
    &&& s.len() <= usize::MAX
}

/// `p` is where a character begins, or the end of the input.
pub open spec fn at_char(s: Seq<u8>, p: int) -> bool {
    0 <= p <= s.len() && (p == s.len() || !is_continuation(s[p]))
}

/// An outcome of a parser started at `p` that has a result, and that stops
/// at or after `p` where a character begins, or fails where one begins.
pub open spec fn sound<V>(s: Seq<u8>, p: int, o: SOutcome<V>) -> bool {
    match o {
        SOutcome::Done(q, _) => p <= q && at_char(s, q),
        SOutcome::Error(Failure::Position(_, x)) => at_char(s, x as int),
        SOutcome::Error(Failure::Code(_)) => true,
        SOutcome::Incomplete(_) => true,
        SOutcome::Abort => false,
    }
}

/// `at_char` is where a character begins in the sense of UTF-8.
proof fn lemma_at_char_boundary(s: Seq<u8>, p: int)
    requires
        valid_utf8(s),
        at_char(s, p),
    ensures
        is_char_boundary(s, p),
{
    if p == s.len() {
        is_char_boundary_start_end_of_seq(s);
    } else {
        is_char_boundary_iff_not_is_continuation_byte(s, p);
    }
}

/// The bytes between two places where characters begin are text.
pub proof fn lemma_text_between(s: Seq<u8>, p: int, e: int)
    requires
        valid_utf8(s),
        at_char(s, p),
        at_char(s, e),
        p <= e,
    ensures
        valid_utf8(s.subrange(p, e)),
{
    lemma_at_char_boundary(s, p);
    valid_utf8_split(s, p);
    let t = s.subrange(p, s.len() as int);
    assert(at_char(t, e - p));
    lemma_at_char_boundary(t, e - p);
    valid_utf8_split(t, e - p);
    assert(t.subrange(0, e - p) =~= s.subrange(p, e));
}

/// A character begins just after an ASCII byte.
pub proof fn lemma_after_ascii(s: Seq<u8>, i: int)
    requires
        valid_utf8(s),
        0 <= i < s.len(),
        s[i] < 0x80,
    ensures
        at_char(s, i + 1),
{
    if i + 1 < s.len() {
        assert(at_char(s, i));
        lemma_at_char_boundary(s, i);
        valid_utf8_split(s, i);
        let t = s.subrange(i, s.len() as int);
        assert(t[0] == s[i]);
        assert(valid_utf8(pop_first_scalar(t)));
        assert(pop_first_scalar(t) =~= s.subrange(i + 1, s.len() as int));
        let u = s.subrange(i + 1, s.len() as int);
        is_char_boundary_start_end_of_seq(u);
        is_char_boundary_iff_not_is_continuation_byte(u, 0);
        assert(u[0] == s[i + 1]);
    }
}

/// White space skipped from where a character begins ends where one
/// begins.
pub proof fn lemma_sp_at_char(s: Seq<u8>, p: int)
    requires
        valid_utf8(s),
        at_char(s, p),
    ensures
        at_char(s, sp(s, p)),
        p <= sp(s, p),
    decreases s.len() - p,
{
    lemma_sp(s, p);
    if p < s.len() && is_space(s[p]) {
        lemma_after_ascii(s, p);
        lemma_sp_at_char(s, p + 1);
    }
}

/// The run of identifier bytes from `p` stays within the input.
proof fn lemma_ident_len(s: Seq<u8>, p: int)
    requires
        0 <= p <= s.len(),
    ensures
        p + ident_len(s, p) <= s.len(),
        p + ident_len(s, p) < s.len() ==> !is_identifier_byte(s[p + ident_len(s, p)]),
        ident_len(s, p) > 0 ==> is_identifier_byte(s[p + ident_len(s, p) - 1]),
    decreases s.len() - p,
{
    if p < s.len() && is_identifier_byte(s[p]) {
        lemma_ident_len(s, p + 1);
    }
}

/// An identifier read where a character begins has a result.
pub proof fn lemma_identifier_sound(s: Seq<u8>, p: int)
    requires
        text_input(s),
        at_char(s, p),
    ensures
        sound(s, p, spec_identifier(s, p)),
{
    lemma_ident_len(s, p);
    let e = p + ident_len(s, p);
    if p < s.len() && ident_len(s, p) > 0 {
        if e < s.len() {
            assert(!(is_identifier_byte(s[e - 1]) && !is_identifier_byte(s[e - 1 + 1])
                && is_continuation(s[e - 1 + 1])));
        }
        assert(at_char(s, e));
        lemma_text_between(s, p, e);
    }
}

/// A one-byte tag or character of ASCII read where a character begins
/// has a result.
pub proof fn lemma_byte_sound(s: Seq<u8>, p: int, c: u8)
    requires
        text_input(s),
        at_char(s, p),
        c < 0x80,
    ensures
        sound(s, p, spec_tag1(s, p, c)),
        sound(s, p, spec_char(s, p, c)),
{
    if p < s.len() && s[p] == c {
        lemma_after_ascii(s, p);
    }
}

/// A tag of ASCII bytes read where a character begins has a result.
pub proof fn lemma_tag_sound(s: Seq<u8>, p: int, t: Seq<u8>)
    requires
        text_input(s),
        at_char(s, p),
        t.len() > 0,
        forall|i: int| 0 <= i < t.len() ==> t[i] < 0x80,
    ensures
        sound(s, p, spec_tag(s, p, t)),
{
    if spec_tag(s, p, t) is Done {
        let m = t.len() as int;
        assert(s.subrange(p, p + m)[m - 1] == t.subrange(0, m)[m - 1]);
        lemma_after_ascii(s, p + m - 1);
    }
}

/// A doubled operator of ASCII read where a character begins has a result.
pub proof fn lemma_tag2_sound(s: Seq<u8>, p: int, c: u8)
    requires
        text_input(s),
        at_char(s, p),
        c < 0x80,
    ensures
        sound(s, p, spec_tag2(s, p, c)),
{
    lemma_tag_sound(s, p, seq![c, c]);
}

} // verus!

verus! {

/// The primitive recognisers, started where a character begins, have a
/// result.
pub proof fn lemma_basics(s: Seq<u8>)
    requires
        text_input(s),
    ensures
        forall|p: int| at_char(s, p) ==> at_char(s, #[trigger] sp(s, p)) && p <= sp(s, p),
        forall|p: int| at_char(s, p) ==> sound(s, p, #[trigger] spec_identifier(s, p)),
        forall|p: int, c: u8|
            at_char(s, p) && c < 0x80 ==> sound(s, p, #[trigger] spec_tag1(s, p, c)),
        forall|p: int, c: u8|
            at_char(s, p) && c < 0x80 ==> sound(s, p, #[trigger] spec_char(s, p, c)),
        forall|p: int, c: u8|
            at_char(s, p) && c < 0x80 ==> sound(s, p, #[trigger] spec_tag2(s, p, c)),
        forall|p: int| at_char(s, p) ==> sound(s, p, #[trigger] spec_tag(s, p, kw_abstract())),
        forall|p: int| at_char(s, p) ==> sound(s, p, #[trigger] spec_tag(s, p, kw_macro())),
        forall|p: int| at_char(s, p) ==> sound(s, p, #[trigger] spec_tag(s, p, kw_if())),
        forall|p: int| at_char(s, p) ==> sound(s, p, #[trigger] spec_tag(s, p, kw_else())),
        forall|p: int| at_char(s, p) ==> sound(s, p, #[trigger] spec_tag(s, p, kw_elseif())),
{
    assert forall|p: int| at_char(s, p) implies at_char(s, #[trigger] sp(s, p)) && p <= sp(s, p) by {
        lemma_sp_at_char(s, p);
    }
    assert forall|p: int| at_char(s, p) implies sound(s, p, #[trigger] spec_identifier(s, p)) by {
        lemma_identifier_sound(s, p);
    }
    assert forall|p: int, c: u8| at_char(s, p) && c < 0x80 implies sound(s, p, #[trigger] spec_tag1(s, p, c)) by {
        lemma_byte_sound(s, p, c);
    }
    assert forall|p: int, c: u8| at_char(s, p) && c < 0x80 implies sound(s, p, #[trigger] spec_char(s, p, c)) by {
        lemma_byte_sound(s, p, c);
    }
    assert forall|p: int, c: u8| at_char(s, p) && c < 0x80 implies sound(s, p, #[trigger] spec_tag2(s, p, c)) by {
        lemma_tag2_sound(s, p, c);
    }
    assert forall|p: int| at_char(s, p) implies sound(s, p, #[trigger] spec_tag(s, p, kw_abstract())) by {
        lemma_tag_sound(s, p, kw_abstract());
    }
    assert forall|p: int| at_char(s, p) implies sound(s, p, #[trigger] spec_tag(s, p, kw_macro())) by {
        lemma_tag_sound(s, p, kw_macro());
    }
    assert forall|p: int| at_char(s, p) implies sound(s, p, #[trigger] spec_tag(s, p, kw_if())) by {
        lemma_tag_sound(s, p, kw_if());
    }
    assert forall|p: int| at_char(s, p) implies sound(s, p, #[trigger] spec_tag(s, p, kw_else())) by {
        lemma_tag_sound(s, p, kw_else());
    }
    assert forall|p: int| at_char(s, p) implies sound(s, p, #[trigger] spec_tag(s, p, kw_elseif())) by {
        lemma_tag_sound(s, p, kw_elseif());
    }
}

/// Names.
pub proof fn lemma_names(s: Seq<u8>)
    requires
        text_input(s),
    ensures
        forall|p: int| at_char(s, p) ==> sound(s, p, #[trigger] spec_variable(s, p)),
{
    lemma_basics(s);
    assert forall|p: int| at_char(s, p) implies sound(s, p, #[trigger] spec_variable(s, p)) by {
        assert(sound(s, p, spec_identifier(s, p)));
    }
}

/// Type specifiers of any kind.
pub proof fn lemma_type_specifier<T: TypeSpecifier>(s: Seq<u8>, p: int)
    requires
        text_input(s),
        at_char(s, p),
    ensures
        sound(s, p, spec_type_specifier::<T>(s, p)),
{
    lemma_basics(s);
    assert(sound(s, p, spec_identifier(s, p)));
}

/// Security attribute literals.
#[verifier::spinoff_prover]
pub proof fn lemma_security_attributes(s: Seq<u8>)
    requires
        text_input(s),
    ensures
        forall|p: int| at_char(s, p) ==> sound(s, p, #[trigger] spec_category_range(s, p)),
        forall|p: int| at_char(s, p) ==> sound(s, p, #[trigger] spec_category_range_or_id(s, p)),
        forall|p: int| at_char(s, p) ==> sound(s, p, #[trigger] spec_level(s, p)),
        forall|p: int| at_char(s, p) ==> sound(s, p, #[trigger] spec_level_or_id(s, p)),
        forall|p: int| at_char(s, p) ==> sound(s, p, #[trigger] spec_level_range(s, p)),
        forall|p: int| at_char(s, p) ==> sound(s, p, #[trigger] spec_context(s, p)),
{
    lemma_basics(s);
    lemma_names(s);
    assert forall|p: int| at_char(s, p) implies sound(s, p, #[trigger] spec_category_range(s, p)) by {
    }
    assert forall|p: int| at_char(s, p) implies sound(s, p, #[trigger] spec_category_range_or_id(s, p)) by {
        assert(sound(s, p, spec_category_range(s, p)));
        assert(sound(s, p, spec_variable(s, p)));
    }
    assert forall|p: int| at_char(s, p) implies sound(s, p, #[trigger] spec_level(s, p)) by {
    }
    assert forall|p: int| at_char(s, p) implies sound(s, p, #[trigger] spec_level_or_id(s, p)) by {
        assert(sound(s, p, spec_level(s, p)));
        assert(sound(s, p, spec_variable(s, p)));
    }
    assert forall|p: int| at_char(s, p) implies sound(s, p, #[trigger] spec_level_range(s, p)) by {
    }
    assert forall|d: int| at_char(s, d) implies (#[trigger] spec_context_tail(s, d)) matches Some(
        (f, _),
    ) && d <= f && at_char(s, f) by {
    }
    assert forall|p: int| at_char(s, p) implies sound(s, p, #[trigger] spec_context(s, p)) by {
    }
}

} // verus!

verus! {

/// The rest of a variable list.
proof fn lemma_list_rest_sound(s: Seq<u8>, i: int, acc: Seq<Seq<char>>)
    requires
        text_input(s),
        at_char(s, i),
    ensures
        sound(s, i, spec_list_rest(s, i, acc)),
    decreases s.len() - i,
{
    lemma_basics(s);
    if 0 <= i < s.len() {
        assert(sound(s, i, spec_list_item(s, i)));
        if let SOutcome::Done(q, o) = spec_list_item(s, i) {
            if i < q <= s.len() {
                lemma_list_rest_sound(s, q, acc.push(o));
            }
        }
    }
}

/// Variable lists.
proof fn lemma_lists(s: Seq<u8>)
    requires
        text_input(s),
    ensures
        forall|p: int| at_char(s, p) ==> sound(s, p, #[trigger] spec_list_item(s, p)),
        forall|p: int| at_char(s, p) ==> sound(s, p, #[trigger] spec_variable_list(s, p)),
        forall|p: int| at_char(s, p) ==> sound(s, p, #[trigger] spec_paren_list(s, p)),
{
    lemma_basics(s);
    assert forall|p: int| at_char(s, p) implies sound(s, p, #[trigger] spec_list_item(s, p)) by {
    }
    assert forall|p: int| at_char(s, p) implies sound(s, p, #[trigger] spec_variable_list(s, p)) by {
        assert(sound(s, p, spec_list_item(s, p)));
        if let SOutcome::Done(q1, o1) = spec_list_item(s, p) {
            lemma_list_rest_sound(s, q1, seq![o1]);
        }
    }
    assert forall|p: int| at_char(s, p) implies sound(s, p, #[trigger] spec_paren_list(s, p)) by {
        assert(sound(s, p, spec_char(s, p, 0x28)));
        if let SOutcome::Done(c, _) = spec_char(s, p, 0x28) {
            assert(sound(s, c, spec_variable_list(s, c)));
            if let SOutcome::Done(q, _) = spec_variable_list(s, c) {
                assert(sound(s, q, spec_char(s, q, 0x29)));
            }
        }
    }
}

/// Expressions.
#[verifier::spinoff_prover]
pub proof fn lemma_expr_sound(s: Seq<u8>, p: int)
    requires
        text_input(s),
        at_char(s, p),
    ensures
        sound(s, p, spec_expr(s, p)),
    decreases s.len() - p, 9int,
{
    lemma_security_attributes(s);
    lemma_binexp_sound(s, p, 6);
    assert(sound(s, p, spec_context(s, p)));
    assert(sound(s, p, spec_level_range(s, p)));
    assert(sound(s, p, spec_category_range(s, p)));
}

/// Operator expressions.
#[verifier::spinoff_prover]
#[verifier::rlimit(60)]
pub proof fn lemma_binexp_sound(s: Seq<u8>, p: int, level: int)
    requires
        text_input(s),
        at_char(s, p),
        1 <= level <= 6,
    ensures
        sound(s, p, spec_binexp(s, p, level)),
    decreases s.len() - p, level + 2,
{
    if 1 <= level <= 6 {
        lemma_basics(s);
        let a0 = sp(s, p);
        assert(at_char(s, a0) && p <= a0);
        if level == 1 {
            lemma_unary_sound(s, a0);
        } else {
            lemma_binexp_sound(s, a0, level - 1);
        }
        assert forall|d: int| p < d <= s.len() && at_char(s, d) implies sound(
            s,
            d,
            #[trigger] spec_binexp(s, d, level),
        ) by {
            lemma_binexp_sound(s, d, level);
        }
        assert forall|q: int| at_char(s, q) implies sound(s, q, #[trigger] spec_op_tag(s, q, level)) by {
            assert(sound(s, q, spec_tag2(s, q, crate::expr::op_byte(level))));
            assert(sound(s, q, spec_tag1(s, q, crate::expr::op_byte(level))));
        }
        let first = if level == 1 {
            spec_unary(s, a0)
        } else {
            spec_binexp(s, a0, level - 1)
        };
        if let SOutcome::Done(q, _) = first {
            let q1 = sp(s, q);
            assert(at_char(s, q1) && p <= q1);
            assert(sound(s, q1, spec_op_tag(s, q1, level)));
            if let SOutcome::Done(c, _) = spec_op_tag(s, q1, level) {
                assert(c > q1);
                let d = sp(s, c);
                assert(at_char(s, d) && c <= d);
                assert(sound(s, d, spec_binexp(s, d, level)));
                if let SOutcome::Done(r, _) = spec_binexp(s, d, level) {
                    assert(at_char(s, sp(s, r)));
                }
            }
        }
    }
}

/// Prefix expressions.
#[verifier::spinoff_prover]
pub proof fn lemma_unary_sound(s: Seq<u8>, p: int)
    requires
        text_input(s),
        at_char(s, p),
    ensures
        sound(s, p, spec_unary(s, p)),
    decreases s.len() - p, 2int,
{
    lemma_basics(s);
    let a = sp(s, p);
    assert(at_char(s, a) && p <= a);
    lemma_primary_sound(s, a);
    if a < s.len() && (s[a] == 0x21 || s[a] == 0x7e) {
        lemma_after_ascii(s, a);
        let b = sp(s, a + 1);
        assert(at_char(s, b) && a + 1 <= b);
        lemma_primary_sound(s, b);
    }
}

/// Primary expressions.
#[verifier::spinoff_prover]
pub proof fn lemma_primary_sound(s: Seq<u8>, p: int)
    requires
        text_input(s),
        at_char(s, p),
    ensures
        sound(s, p, spec_primary(s, p)),
    decreases s.len() - p, 1int,
{
    lemma_names(s);
    lemma_lists(s);
    lemma_paren_expr_sound(s, p);
    assert(sound(s, p, spec_variable(s, p)));
    assert(sound(s, p, spec_paren_list(s, p)));
}

/// Parenthesised expressions.
#[verifier::spinoff_prover]
pub proof fn lemma_paren_expr_sound(s: Seq<u8>, p: int)
    requires
        text_input(s),
        at_char(s, p),
    ensures
        sound(s, p, spec_paren_expr(s, p)),
    decreases s.len() - p, 0int,
{
    lemma_basics(s);
    assert(sound(s, p, spec_char(s, p, 0x28)));
    if let SOutcome::Done(c, _) = spec_char(s, p, 0x28) {
        lemma_expr_sound(s, c);
        if let SOutcome::Done(q, _) = spec_expr(s, c) {
            assert(sound(s, q, spec_char(s, q, 0x29)));
        }
    }
}

} // verus!

verus! {

/// Expressions and type specifiers, wherever a character begins.
pub proof fn lemma_exprs(s: Seq<u8>)
    requires
        text_input(s),
    ensures
        forall|p: int| at_char(s, p) ==> sound(s, p, #[trigger] spec_expr(s, p)),
        forall|p: int| at_char(s, p) ==> sound(s, p, #[trigger] spec_primary(s, p)),
        forall|p: int|
            at_char(s, p) ==> sound(s, p, #[trigger] spec_type_specifier::<AllowRuleType>(s, p)),
        forall|p: int|
            at_char(s, p) ==> sound(s, p, #[trigger] spec_type_specifier::<BlockType>(s, p)),
        forall|p: int|
            at_char(s, p) ==> sound(s, p, #[trigger] spec_type_specifier::<SymbolType>(s, p)),
{
    assert forall|p: int| at_char(s, p) implies sound(s, p, #[trigger] spec_expr(s, p)) by {
        lemma_expr_sound(s, p);
    }
    assert forall|p: int| at_char(s, p) implies sound(s, p, #[trigger] spec_primary(s, p)) by {
        lemma_primary_sound(s, p);
    }
    assert forall|p: int| at_char(s, p) implies sound(s, p, #[trigger] spec_type_specifier::<AllowRuleType>(s, p)) by {
        lemma_type_specifier::<AllowRuleType>(s, p);
    }
    assert forall|p: int| at_char(s, p) implies sound(s, p, #[trigger] spec_type_specifier::<BlockType>(s, p)) by {
        lemma_type_specifier::<BlockType>(s, p);
    }
    assert forall|p: int| at_char(s, p) implies sound(s, p, #[trigger] spec_type_specifier::<SymbolType>(s, p)) by {
        lemma_type_specifier::<SymbolType>(s, p);
    }
}

/// Access vector rules.
#[verifier::spinoff_prover]
pub proof fn lemma_type_enforcement(s: Seq<u8>)
    requires
        text_input(s),
    ensures
        forall|p: int| at_char(s, p) ==> sound(s, p, #[trigger] spec_allow_rule(s, p)),
{
    lemma_basics(s);
    lemma_names(s);
    lemma_exprs(s);
    assert forall|p: int| at_char(s, p) implies sound(s, p, #[trigger] spec_class_and_permissions(s, p)) by {
    }
    assert forall|p: int| at_char(s, p) implies sound(s, p, #[trigger] spec_access_vector(s, p)) by {
        assert(sound(s, p, spec_class_and_permissions(s, p)));
        assert(sound(s, p, spec_expr(s, p)));
    }
    assert forall|p: int| at_char(s, p) implies sound(s, p, #[trigger] spec_allow_rule(s, p)) by {
    }
}

/// The further parameters of a parameter list.
proof fn lemma_params_from_sound(s: Seq<u8>, i: int, acc: Seq<crate::ast::SpecMacroParameter>)
    requires
        text_input(s),
        at_char(s, i),
    ensures
        sound(s, i, spec_params_from(s, i, acc)),
    decreases s.len() - i,
{
    lemma_basics(s);
    lemma_exprs(s);
    if 0 <= i < s.len() {
        assert(sound(s, i, spec_comma_param(s, i))) by {
            let a = sp(s, i);
            assert(at_char(s, a));
            if let SOutcome::Done(c, _) = spec_char(s, a, 0x2c) {
                assert(sound(s, sp(s, c), spec_macro_param(s, sp(s, c))));
            }
        }
        if let SOutcome::Done(q, o) = spec_comma_param(s, i) {
            if i < q <= s.len() {
                lemma_params_from_sound(s, q, acc.push(o));
            }
        }
    }
}

/// The further arguments of an argument list.
proof fn lemma_args_from_sound(s: Seq<u8>, i: int, acc: Seq<crate::ast::SpecExpr>)
    requires
        text_input(s),
        at_char(s, i),
    ensures
        sound(s, i, spec_args_from(s, i, acc)),
    decreases s.len() - i,
{
    lemma_basics(s);
    lemma_exprs(s);
    if 0 <= i < s.len() {
        assert(sound(s, i, spec_comma_arg(s, i))) by {
            let a = sp(s, i);
            assert(at_char(s, a));
            if let SOutcome::Done(c, _) = spec_char(s, a, 0x2c) {
                assert(sound(s, sp(s, c), spec_expr(s, sp(s, c))));
            }
        }
        if let SOutcome::Done(q, o) = spec_comma_arg(s, i) {
            if i < q <= s.len() {
                lemma_args_from_sound(s, q, acc.push(o));
            }
        }
    }
}

/// Statements other than those holding statement lists.
#[verifier::spinoff_prover]
pub proof fn lemma_simple_statements(s: Seq<u8>)
    requires
        text_input(s),
    ensures
        forall|p: int| at_char(s, p) ==> sound(s, p, #[trigger] spec_abstract_mark(s, p)),
        forall|p: int| at_char(s, p) ==> sound(s, p, #[trigger] spec_symbol_declaration(s, p)),
        forall|p: int| at_char(s, p) ==> sound(s, p, #[trigger] spec_macro_param_list(s, p)),
        forall|p: int| at_char(s, p) ==> sound(s, p, #[trigger] spec_macro_call(s, p)),
{
    lemma_basics(s);
    lemma_exprs(s);
    assert forall|p: int| at_char(s, p) implies sound(s, p, #[trigger] spec_abstract_mark(s, p)) by {
    }
    assert forall|p: int| at_char(s, p) implies sound(s, p, #[trigger] spec_symbol_declaration(s, p)) by {
    }
    assert forall|p: int| at_char(s, p) implies sound(s, p, #[trigger] spec_macro_param(s, p)) by {
    }
    assert forall|p: int| at_char(s, p) implies sound(s, p, #[trigger] spec_macro_param_list(s, p)) by {
        let a = sp(s, p);
        assert(at_char(s, a));
        assert(sound(s, a, spec_macro_param(s, a)));
        if let SOutcome::Done(q1, first) = spec_macro_param(s, a) {
            lemma_params_from_sound(s, q1, seq![first]);
        }
    }
    assert forall|p: int| at_char(s, p) implies sound(s, p, #[trigger] spec_macro_argument_list(s, p)) by {
        let a = sp(s, p);
        assert(at_char(s, a));
        assert(sound(s, a, spec_expr(s, a)));
        if let SOutcome::Done(q, _) = spec_expr(s, a) {
            assert(at_char(s, sp(s, q)));
        }
        if let SOutcome::Done(q1, first) = crate::scan::trail(s, spec_expr(s, a)) {
            lemma_args_from_sound(s, q1, seq![first]);
        }
    }
    assert forall|p: int| at_char(s, p) implies sound(s, p, #[trigger] spec_macro_call(s, p)) by {
    }
}

} // verus!

verus! {

/// Lists of statements.
#[verifier::spinoff_prover]
#[verifier::rlimit(40)]
pub proof fn lemma_stmts_from_sound(
    s: Seq<u8>,
    i: int,
    acc: Seq<crate::ast::SpecStatement>,
    wrapped: bool,
)
    requires
        text_input(s),
        at_char(s, i),
    ensures
        sound(s, i, spec_stmts_from(s, i, acc, wrapped)),
    decreases s.len() - i, 20int,
{
    if 0 <= i < s.len() {
        lemma_sp_at_char(s, i);
        let a = sp(s, i);
        let item = if wrapped {
            crate::scan::trail(s, spec_statement(s, a))
        } else {
            spec_statement(s, i)
        };
        assert(sound(s, i, item)) by {
            if wrapped {
                lemma_statement_sound(s, a);
                if let SOutcome::Done(q, _) = spec_statement(s, a) {
                    lemma_sp_at_char(s, q);
                }
            } else {
                lemma_statement_sound(s, i);
            }
        }
        if let SOutcome::Done(q, o) = item {
            if i < q <= s.len() {
                lemma_stmts_from_sound(s, q, acc.push(o), wrapped);
            }
        }
        lemma_stmts_from_step(s, i, acc, wrapped, item);
    }
}

/// One step of a list of statements: its outcome follows from that of
/// the first statement and of the rest.
#[verifier::spinoff_prover]
proof fn lemma_stmts_from_step(
    s: Seq<u8>,
    i: int,
    acc: Seq<crate::ast::SpecStatement>,
    wrapped: bool,
    item: SOutcome<crate::ast::SpecStatement>,
)
    requires
        text_input(s),
        at_char(s, i),
        i < s.len(),
        item == (if wrapped {
            crate::scan::trail(s, spec_statement(s, sp(s, i)))
        } else {
            spec_statement(s, i)
        }),
        sound(s, i, item),
        item matches SOutcome::Done(q, o) ==> (i < q <= s.len() ==> sound(
            s,
            q,
            spec_stmts_from(s, q, acc.push(o), wrapped),
        )),
    ensures
        sound(s, i, spec_stmts_from(s, i, acc, wrapped)),
{
    crate::parser::lemma_stmts_from_unfold(s, i, acc, wrapped);
}

/// Statements.
#[verifier::spinoff_prover]
pub proof fn lemma_statement_sound(s: Seq<u8>, p: int)
    requires
        text_input(s),
        at_char(s, p),
    ensures
        sound(s, p, spec_statement(s, p)),
    decreases s.len() - p, 19int,
{
    lemma_simple_statements(s);
    lemma_declaration_sound(s, p);
    lemma_if_else_sound(s, p);
    assert(sound(s, p, spec_macro_call(s, p)));
}

/// Declarations.
#[verifier::spinoff_prover]
pub proof fn lemma_declaration_sound(s: Seq<u8>, p: int)
    requires
        text_input(s),
        at_char(s, p),
    ensures
        sound(s, p, spec_declaration(s, p)),
    decreases s.len() - p, 18int,
{
    lemma_simple_statements(s);
    lemma_block_declaration_sound(s, p);
    lemma_macro_declaration_sound(s, p);
    assert(sound(s, p, spec_symbol_declaration(s, p)));
}

/// Block declarations.
#[verifier::spinoff_prover]
pub proof fn lemma_block_declaration_sound(s: Seq<u8>, p: int)
    requires
        text_input(s),
        at_char(s, p),
    ensures
        sound(s, p, spec_block_declaration(s, p)),
    decreases s.len() - p, 17int,
{
    lemma_basics(s);
    lemma_exprs(s);
    lemma_simple_statements(s);
    let a = sp(s, p);
    assert(at_char(s, a));
    assert(sound(s, a, spec_abstract_mark(s, a)));
    if let SOutcome::Done(q0, _) = spec_abstract_mark(s, a) {
        let b = sp(s, q0);
        assert(at_char(s, b));
        assert(sound(s, b, spec_type_specifier::<BlockType>(s, b)));
        if let SOutcome::Done(q1, _) = spec_type_specifier::<BlockType>(s, b) {
            let c = sp(s, q1);
            assert(at_char(s, c));
            assert(sound(s, c, spec_identifier(s, c)));
            if let SOutcome::Done(q2, _) = spec_identifier(s, c) {
                let d = sp(s, q2);
                assert(at_char(s, d));
                assert(sound(s, d, spec_char(s, d, 0x7b)));
                if let SOutcome::Done(q3, _) = spec_char(s, d, 0x7b) {
                    let e = sp(s, q3);
                    assert(at_char(s, e));
                    if p < e <= s.len() {
                        lemma_stmts_from_sound(s, e, Seq::empty(), true);
                        if let SOutcome::Done(q4, _) = spec_stmts_from(s, e, Seq::empty(), true) {
                            let f = sp(s, q4);
                            assert(at_char(s, f));
                            assert(sound(s, f, spec_char(s, f, 0x7d)));
                            if let SOutcome::Done(q5, _) = spec_char(s, f, 0x7d) {
                                assert(at_char(s, sp(s, q5)));
                            }
                        }
                    }
                }
            }
        }
    }
}

/// Macro declarations.
#[verifier::spinoff_prover]
pub proof fn lemma_macro_declaration_sound(s: Seq<u8>, p: int)
    requires
        text_input(s),
        at_char(s, p),
    ensures
        sound(s, p, spec_macro_declaration(s, p)),
    decreases s.len() - p, 17int,
{
    lemma_basics(s);
    lemma_simple_statements(s);
    let a = sp(s, p);
    assert(at_char(s, a));
    if let SOutcome::Done(q1, _) = spec_tag(s, a, kw_macro()) {
        let b = sp(s, q1);
        assert(at_char(s, b));
        if let SOutcome::Done(q2, _) = spec_identifier(s, b) {
            let c = sp(s, q2);
            assert(at_char(s, c));
            if let SOutcome::Done(q3, _) = spec_tag1(s, c, 0x28) {
                let d = sp(s, q3);
                assert(at_char(s, d));
                if let SOutcome::Done(q4, _) = spec_macro_param_list(s, d) {
                    let f = sp(s, q4);
                    assert(at_char(s, f));
                    if let SOutcome::Done(q5, _) = spec_tag1(s, f, 0x29) {
                        let g = sp(s, q5);
                        assert(at_char(s, g));
                        if let SOutcome::Done(q6, _) = spec_tag1(s, g, 0x7b) {
                            let e = sp(s, q6);
                            assert(at_char(s, e));
                            if p < e <= s.len() {
                                lemma_stmts_from_sound(s, e, Seq::empty(), false);
                                if let SOutcome::Done(q7, _) = spec_stmts_from(s, e, Seq::empty(), false) {
                                    let h = sp(s, q7);
                                    assert(at_char(s, h));
                                    if let SOutcome::Done(q8, _) = spec_tag1(s, h, 0x7d) {
                                        assert(at_char(s, sp(s, q8)));
                                    }
                                }
                            }
                        }
                    }
                }
            }
        }
    }
}

/// Braced branches of conditionals.
#[verifier::spinoff_prover]
pub proof fn lemma_branch_sound(s: Seq<u8>, p: int, b: int)
    requires
        text_input(s),
        at_char(s, b),
        p < b,
    ensures
        sound(s, b, spec_branch(s, p, b)),
    decreases s.len() - p, 16int,
{
    lemma_basics(s);
    assert(sound(s, b, spec_char(s, b, 0x7b)));
    if let SOutcome::Done(c, _) = spec_char(s, b, 0x7b) {
        if p < c <= s.len() {
            lemma_stmts_from_sound(s, c, Seq::empty(), false);
            if let SOutcome::Done(q, _) = spec_stmts_from(s, c, Seq::empty(), false) {
                assert(sound(s, q, spec_char(s, q, 0x7d)));
            }
        }
    }
}

/// Conditionals.
#[verifier::spinoff_prover]
pub proof fn lemma_if_else_sound(s: Seq<u8>, p: int)
    requires
        text_input(s),
        at_char(s, p),
    ensures
        sound(s, p, spec_if_else(s, p)),
    decreases s.len() - p, 17int,
{
    lemma_basics(s);
    lemma_exprs(s);
    let a = sp(s, p);
    assert(at_char(s, a));
    if let SOutcome::Done(q1, _) = spec_tag(s, a, kw_if()) {
        let b = sp(s, q1);
        assert(at_char(s, b));
        if let SOutcome::Done(q2, _) = spec_expr(s, b) {
            let c = sp(s, q2);
            assert(at_char(s, c));
            if let SOutcome::Done(q3, _) = spec_char(s, c, 0x7b) {
                let e = sp(s, q3);
                assert(at_char(s, e));
                if p < e <= s.len() {
                    lemma_stmts_from_sound(s, e, Seq::empty(), false);
                    if let SOutcome::Done(q4, _) = spec_stmts_from(s, e, Seq::empty(), false) {
                        let d = sp(s, q4);
                        assert(at_char(s, d));
                        if let SOutcome::Done(q5, _) = spec_char(s, d, 0x7d) {
                            let f = sp(s, q5);
                            assert(at_char(s, f));
                            if p < f <= s.len() {
                                lemma_else_ifs_from_sound(s, f, Seq::empty());
                                if let SOutcome::Done(q6, _) = spec_else_ifs_from(s, f, Seq::empty()) {
                                    let g = sp(s, q6);
                                    assert(at_char(s, g));
                                    if let SOutcome::Done(h, _) = spec_tag(s, g, kw_else()) {
                                        if p < h <= s.len() {
                                            lemma_branch_sound(s, p, h);
                                            if let SOutcome::Done(r, _) = spec_branch(s, p, h) {
                                                assert(at_char(s, sp(s, r)));
                                            }
                                        }
                                    }
                                    assert(at_char(s, sp(s, g)));
                                }
                            }
                        }
                    }
                }
            }
        }
    }
}

/// The `elseif` branches of a conditional.
#[verifier::spinoff_prover]
pub proof fn lemma_else_ifs_from_sound(
    s: Seq<u8>,
    i: int,
    acc: Seq<(crate::ast::SpecExpr, Seq<crate::ast::SpecStatement>)>,
)
    requires
        text_input(s),
        at_char(s, i),
    ensures
        sound(s, i, spec_else_ifs_from(s, i, acc)),
    decreases s.len() - i, 16int,
{
    lemma_basics(s);
    if 0 <= i < s.len() {
        let a = sp(s, i);
        assert(at_char(s, a) && i <= a);
        lemma_else_if_sound(s, a);
        if let SOutcome::Done(q, _) = spec_else_if(s, a) {
            assert(at_char(s, sp(s, q)));
        }
        let item = crate::scan::trail(s, spec_else_if(s, a));
        assert(sound(s, i, item));
        if let SOutcome::Done(q, o) = item {
            if i < q <= s.len() {
                lemma_else_ifs_from_sound(s, q, acc.push(o));
            }
        }
    }
}

/// An `elseif` branch.
#[verifier::spinoff_prover]
pub proof fn lemma_else_if_sound(s: Seq<u8>, p: int)
    requires
        text_input(s),
        at_char(s, p),
    ensures
        sound(s, p, spec_else_if(s, p)),
    decreases s.len() - p, 15int,
{
    lemma_basics(s);
    lemma_exprs(s);
    let a = sp(s, p);
    assert(at_char(s, a));
    if let SOutcome::Done(q1, _) = spec_tag(s, a, kw_elseif()) {
        let b = sp(s, q1);
        assert(at_char(s, b));
        if let SOutcome::Done(q2, _) = spec_expr(s, b) {
            let c = sp(s, q2);
            assert(at_char(s, c));
            if let SOutcome::Done(q3, _) = spec_tag1(s, c, 0x7b) {
                let e = sp(s, q3);
                assert(at_char(s, e));
                if p < e <= s.len() {
                    lemma_stmts_from_sound(s, e, Seq::empty(), false);
                    if let SOutcome::Done(q4, _) = spec_stmts_from(s, e, Seq::empty(), false) {
                        let d = sp(s, q4);
                        assert(at_char(s, d));
                        if let SOutcome::Done(q5, _) = spec_tag1(s, d, 0x7d) {
                            assert(at_char(s, sp(s, q5)));
                        }
                    }
                }
            }
        }
    }
}

} // verus!

verus! {

/// The end of the line from `i` is the end of the input or a line feed.
proof fn lemma_line_end(s: Seq<u8>, i: int)
    requires
        0 <= i <= s.len(),
    ensures
        i <= crate::line_end(s, i) <= s.len(),
        crate::line_end(s, i) < s.len() ==> s[crate::line_end(s, i)] == 0x0a,
    decreases s.len() - i,
{
    if i < s.len() && s[i] != 0x0a {
        lemma_line_end(s, i + 1);
    }
}

/// The line reported from where a character begins is text.
proof fn lemma_first_line_text(s: Seq<u8>, i: int)
    requires
        valid_utf8(s),
        at_char(s, i),
    ensures
        valid_utf8(crate::first_line(s, i)),
{
    lemma_line_end(s, i);
    let e = crate::line_end(s, i);
    assert(at_char(s, e));
    if e < s.len() && e > i && s[e - 1] == 0x0d {
        assert(at_char(s, e - 1));
        lemma_text_between(s, i, e - 1);
    } else {
        lemma_text_between(s, i, e);
    }
}

/// Where the input is well-formed UTF-8 and no run of identifier bytes
/// ends just before a byte that continues a character (which
/// `identifiers_are_text` decides), parsing the whole input has a result:
/// every identifier and every reported line it reads is text.
#[verifier::spinoff_prover]
pub proof fn lemma_parse_has_result(s: Seq<u8>)
    requires
        spec_identifiers_are_text(s),
        crate::scan::input_fits(s),
    ensures
        !(crate::spec_parse_from_slice(s) is Abort),
{
    assert(at_char(s, 0));
    lemma_stmts_from_sound(s, 0, Seq::empty(), false);
    match spec_stmts_from(s, 0, Seq::empty(), false) {
        SOutcome::Done(q, _) => {
            if q != s.len() {
                lemma_first_line_text(s, q);
            }
        },
        SOutcome::Error(Failure::Position(_, p)) => {
            lemma_first_line_text(s, p as int);
        },
        _ => {},
    }
}

} // verus!

