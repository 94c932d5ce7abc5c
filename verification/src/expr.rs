//! Expressions: security attribute literals, and boolean and bitwise
//! operator expressions over variables and variable lists.
//!
//! Operators bind, from loosest to tightest: `||`, `^^`, `&&`, `|`, `^`,
//! `&`, then the prefix operators `!` and `~`.  Binary operators group to
//! the right.

use vstd::prelude::*;
use crate::ast::{BinaryOp, Expr, SpecExpr, UnaryOp};
use crate::name::{spec_variable, variable};
use crate::scan::{
    ErrorKind, Failure, Outcome, SOutcome, char_at, fail, fail_as, identifier_at, input_fits,
    lemma_sp, outcome_view, skip_space, sp, spec_char, spec_identifier, spec_tag1, spec_tag2,
    tag1_at, tag2_at, trail,
};
use crate::security_attributes::{
    category_range, context, level_range, spec_category_range, spec_context, spec_level_range,
};

verus! {

/// The operator byte of binding level `level` (1 binds tightest, 6 loosest).
pub open spec fn op_byte(level: int) -> u8 {
    if level == 6 || level == 3 {
        0x7c
    } else if level == 5 || level == 2 {
        0x5e
    } else {
        0x26
    }
}

/// The operator of binding level `level`.
pub open spec fn op_of(level: int) -> BinaryOp {
    if level == 6 {
        BinaryOp::ConditionalOr
    } else if level == 5 {
        BinaryOp::ConditionalXor
    } else if level == 4 {
        BinaryOp::ConditionalAnd
    } else if level == 3 {
        BinaryOp::BitwiseOr
    } else if level == 2 {
        BinaryOp::BitwiseXor
    } else {
        BinaryOp::BitwiseAnd
    }
}

/// The operator token of binding level `level`: doubled at the logical
/// levels 4 to 6, single at the bitwise levels 1 to 3.
pub open spec fn spec_op_tag(s: Seq<u8>, p: int, level: int) -> SOutcome<()> {
    if level >= 4 {
        spec_tag2(s, p, op_byte(level))
    } else {
        spec_tag1(s, p, op_byte(level))
    }
}

/// An expression: a context, a level range, a category range, or else an
/// operator expression.  When none of these parses it fails with `Alt` at
/// `p`.
pub open spec fn spec_expr(s: Seq<u8>, p: int) -> SOutcome<SpecExpr>
    decreases s.len() - p, 9int,
{
    if p < 0 || p > s.len() {
        SOutcome::Abort
    } else {
        match spec_context(s, p) {
            SOutcome::Done(q, e) => SOutcome::Done(q, e),
            SOutcome::Abort => SOutcome::Abort,
            _ => match spec_level_range(s, p) {
                SOutcome::Done(q, e) => SOutcome::Done(q, e),
                SOutcome::Abort => SOutcome::Abort,
                _ => match spec_category_range(s, p) {
                    SOutcome::Done(q, e) => SOutcome::Done(q, e),
                    SOutcome::Abort => SOutcome::Abort,
                    _ => match spec_binexp(s, p, 6) {
                        SOutcome::Done(q, e) => SOutcome::Done(q, e),
                        SOutcome::Abort => SOutcome::Abort,
                        _ => SOutcome::Error(Failure::Position(ErrorKind::Alt, p as usize)),
                    },
                },
            },
        }
    }
}

/// An operator expression of binding level `level`: an operand of the next
/// tighter level, optionally followed by the operator and an expression of
/// this level.  When the operator or the right operand does not parse, the
/// operand alone is the result.
pub open spec fn spec_binexp(s: Seq<u8>, p: int, level: int) -> SOutcome<SpecExpr>
    decreases s.len() - p, level + 2,
{
    if p < 0 || p > s.len() || level < 1 || level > 6 {
        SOutcome::Abort
    } else {
        proof {
            lemma_sp(s, p);
        }
        let a0 = sp(s, p);
        let first = if level == 1 {
            spec_unary(s, a0)
        } else {
            spec_binexp(s, a0, level - 1)
        };
        match first {
            SOutcome::Done(q, a) => {
                let q1 = sp(s, q);
                let rhs = match spec_op_tag(s, q1, level) {
                    SOutcome::Done(c, _) => {
                        let d = sp(s, c);
                        if p < d <= s.len() {
                            spec_binexp(s, d, level)
                        } else {
                            SOutcome::Abort
                        }
                    },
                    o => fail(o),
                };
                match rhs {
                    SOutcome::Done(r, b) => SOutcome::Done(
                        sp(s, r),
                        SpecExpr::Binary(Box::new(a), op_of(level), Box::new(b)),
                    ),
                    SOutcome::Abort => SOutcome::Abort,
                    _ => SOutcome::Done(q1, a),
                }
            },
            o => o,
        }
    }
}

/// A prefix expression: `!` or `~` followed by a primary expression, or
/// else a primary expression.
pub open spec fn spec_unary(s: Seq<u8>, p: int) -> SOutcome<SpecExpr>
    decreases s.len() - p, 2int,
{
    if p < 0 || p > s.len() {
        SOutcome::Abort
    } else {
        proof {
            lemma_sp(s, p);
        }
        let a = sp(s, p);
        let first = if a == s.len() {
            SOutcome::Incomplete(a + 1)
        } else if s[a] == 0x21 || s[a] == 0x7e {
            let op = if s[a] == 0x21 {
                UnaryOp::ConditionalNot
            } else {
                UnaryOp::BitwiseNot
            };
            proof {
                lemma_sp(s, a + 1);
            }
            match spec_primary(s, sp(s, a + 1)) {
                SOutcome::Done(r, e) => SOutcome::Done(sp(s, r), SpecExpr::Unary(op, Box::new(e))),
                o => o,
            }
        } else {
            SOutcome::Error(Failure::Position(ErrorKind::Alt, a as usize))
        };
        match first {
            SOutcome::Error(_) => match spec_primary(s, a) {
                SOutcome::Done(r, e) => SOutcome::Done(sp(s, r), e),
                SOutcome::Error(_) => SOutcome::Error(Failure::Position(ErrorKind::Alt, a as usize)),
                o => o,
            },
            o => o,
        }
    }
}

/// A parenthesised expression at `p`.
pub open spec fn spec_paren_expr(s: Seq<u8>, p: int) -> SOutcome<SpecExpr>
    decreases s.len() - p, 0int,
{
    match spec_char(s, p, 0x28) {
        SOutcome::Done(c, _) => match spec_expr(s, c) {
            SOutcome::Done(q, e) => match spec_char(s, q, 0x29) {
                SOutcome::Done(r, _) => SOutcome::Done(r, e),
                o => fail(o),
            },
            o => o,
        },
        o => fail(o),
    }
}

/// A primary expression: a variable, a parenthesised expression, or a
/// parenthesised list of variables.
pub open spec fn spec_primary(s: Seq<u8>, p: int) -> SOutcome<SpecExpr>
    decreases s.len() - p, 1int,
{
    if p < 0 || p > s.len() {
        SOutcome::Abort
    } else {
        match spec_variable(s, p) {
            SOutcome::Done(q, e) => SOutcome::Done(q, e),
            SOutcome::Abort => SOutcome::Abort,
            _ => match spec_paren_expr(s, p) {
                SOutcome::Done(q, e) => SOutcome::Done(q, e),
                SOutcome::Abort => SOutcome::Abort,
                _ => match spec_paren_list(s, p) {
                    SOutcome::Done(q, e) => SOutcome::Done(q, e),
                    SOutcome::Abort => SOutcome::Abort,
                    _ => SOutcome::Error(Failure::Position(ErrorKind::Alt, p as usize)),
                },
            },
        }
    }
}

/// One item of a variable list: an identifier with white space around it.
pub open spec fn spec_list_item(s: Seq<u8>, i: int) -> SOutcome<Seq<char>> {
    trail(s, spec_identifier(s, sp(s, i)))
}

/// The remaining items of a variable list from `i`, after the items `acc`.
/// The list ends at the end of the input, at an item that fails, or at an
/// item that consumes nothing.
pub open spec fn spec_list_rest(s: Seq<u8>, i: int, acc: Seq<Seq<char>>) -> SOutcome<Seq<Seq<char>>>
    decreases s.len() - i,
{
    if i < 0 || i >= s.len() {
        SOutcome::Done(i, acc)
    } else {
        match spec_list_item(s, i) {
            SOutcome::Error(_) => SOutcome::Done(i, acc),
            SOutcome::Incomplete(n) => SOutcome::Incomplete(n),
            SOutcome::Abort => SOutcome::Abort,
            SOutcome::Done(q, o) => if i < q <= s.len() {
                spec_list_rest(s, q, acc.push(o))
            } else {
                SOutcome::Done(i, acc)
            },
        }
    }
}

/// A list of one or more identifiers separated by white space.  With no
/// identifier at all it fails with `Many1` at `p`.
pub open spec fn spec_variable_list(s: Seq<u8>, p: int) -> SOutcome<SpecExpr> {
    if p < 0 || p > s.len() {
        SOutcome::Abort
    } else {
        match spec_list_item(s, p) {
            SOutcome::Error(_) => SOutcome::Error(Failure::Position(ErrorKind::Many1, p as usize)),
            SOutcome::Done(q1, o1) => match spec_list_rest(s, q1, seq![o1]) {
                SOutcome::Done(q, ids) => SOutcome::Done(sp(s, q), SpecExpr::VariableList(ids)),
                o => fail(o),
            },
            o => fail(o),
        }
    }
}

/// A parenthesised variable list at `p`.
pub open spec fn spec_paren_list(s: Seq<u8>, p: int) -> SOutcome<SpecExpr> {
    match spec_char(s, p, 0x28) {
        SOutcome::Done(c, _) => match spec_variable_list(s, c) {
            SOutcome::Done(q, e) => match spec_char(s, q, 0x29) {
                SOutcome::Done(r, _) => SOutcome::Done(r, e),
                o => fail(o),
            },
            o => o,
        },
        o => fail(o),
    }
}

/// Parses one item of a variable list at `i`.
fn list_item(s: &[u8], i: usize) -> (r: Outcome<String>)
    requires
        i <= s@.len(),
        input_fits(s@),
        !spec_list_item(s@, i as int).is_abort(),
    ensures
        outcome_view(r) == spec_list_item(s@, i as int),
        r matches Outcome::Done(q, _) ==> i < q <= s@.len(),
{
    proof { lemma_sp(s@, i as int); }
    let a = skip_space(s, i);
    match identifier_at(s, a) {
        Outcome::Done(q, id) => {
            proof { lemma_sp(s@, q as int); }
            Outcome::Done(skip_space(s, q), id)
        },
        o => o,
    }
}

/// Parses a list of one or more identifiers at `p`.
pub fn variable_list(s: &[u8], p: usize) -> (r: Outcome<Expr>)
    requires
        p <= s@.len(),
        input_fits(s@),
        !spec_variable_list(s@, p as int).is_abort(),
    ensures
        outcome_view(r) == spec_variable_list(s@, p as int),
        r matches Outcome::Done(q, _) ==> p < q <= s@.len(),
{
    let (q1, first) = match list_item(s, p) {
        Outcome::Done(q1, first) => (q1, first),
        Outcome::Error(_) => return Outcome::Error(Failure::Position(ErrorKind::Many1, p)),
        Outcome::Incomplete(n) => return Outcome::Incomplete(n),
    };
    let ghost first_view = first@;
    let mut ids: Vec<String> = Vec::new();
    ids.push(first);
    assert(ids.deep_view() =~= seq![first_view]);
    let mut i = q1;
    loop
        invariant_except_break
            p < i <= s@.len(),
            input_fits(s@),
            spec_list_item(s@, p as int) == SOutcome::Done(q1 as int, first_view),
            spec_list_rest(s@, i as int, ids.deep_view()) == spec_list_rest(
                s@,
                q1 as int,
                seq![first_view],
            ),
            !spec_list_rest(s@, i as int, ids.deep_view()).is_abort(),
        ensures
            p < i <= s@.len(),
            spec_list_rest(s@, q1 as int, seq![first_view]) == SOutcome::Done(
                i as int,
                ids.deep_view(),
            ),
        decreases s@.len() - i,
    {
        if i == s.len() {
            break;
        }
        match list_item(s, i) {
            Outcome::Done(q, o) => {
                if q <= i {
                    break;
                }
                let ghost before = ids.deep_view();
                let ghost ov = o@;
                ids.push(o);
                assert(ids.deep_view() =~= before.push(ov));
                i = q;
            },
            Outcome::Error(_) => break,
            Outcome::Incomplete(n) => {
                assert(spec_list_rest(s@, q1 as int, seq![first_view]) == SOutcome::<Seq<Seq<char>>>::Incomplete(n as int));
                return Outcome::Incomplete(n);
            },
        }
    }
    proof { lemma_sp(s@, i as int); }
    Outcome::Done(skip_space(s, i), Expr::VariableList(ids))
}

/// Parses a parenthesised expression at `p`.
fn paren_expr(s: &[u8], p: usize) -> (r: Outcome<Expr>)
    requires
        p <= s@.len(),
        input_fits(s@),
        !spec_paren_expr(s@, p as int).is_abort(),
    ensures
        outcome_view(r) == spec_paren_expr(s@, p as int),
        r matches Outcome::Done(q, _) ==> p < q <= s@.len(),
    decreases s@.len() - p, 0int,
{
    match char_at(s, p, 0x28) {
        Outcome::Done(c, _) => match expr(s, c) {
            Outcome::Done(q, e) => match char_at(s, q, 0x29) {
                Outcome::Done(r, _) => Outcome::Done(r, e),
                o => fail_as(o),
            },
            o => o,
        },
        o => fail_as(o),
    }
}

/// Parses a parenthesised variable list at `p`.
fn paren_list(s: &[u8], p: usize) -> (r: Outcome<Expr>)
    requires
        p <= s@.len(),
        input_fits(s@),
        !spec_paren_list(s@, p as int).is_abort(),
    ensures
        outcome_view(r) == spec_paren_list(s@, p as int),
        r matches Outcome::Done(q, _) ==> p < q <= s@.len(),
{
    match char_at(s, p, 0x28) {
        Outcome::Done(c, _) => match variable_list(s, c) {
            Outcome::Done(q, e) => match char_at(s, q, 0x29) {
                Outcome::Done(r, _) => Outcome::Done(r, e),
                o => fail_as(o),
            },
            o => o,
        },
        o => fail_as(o),
    }
}

/// Parses a primary expression at `p`.
pub fn primary_expr(s: &[u8], p: usize) -> (r: Outcome<Expr>)
    requires
        p <= s@.len(),
        input_fits(s@),
        !spec_primary(s@, p as int).is_abort(),
    ensures
        outcome_view(r) == spec_primary(s@, p as int),
        r matches Outcome::Done(q, _) ==> p < q <= s@.len(),
    decreases s@.len() - p, 1int,
{
    match variable(s, p) {
        Outcome::Done(q, e) => Outcome::Done(q, e),
        _ => match paren_expr(s, p) {
            Outcome::Done(q, e) => Outcome::Done(q, e),
            _ => match paren_list(s, p) {
                Outcome::Done(q, e) => Outcome::Done(q, e),
                _ => Outcome::Error(Failure::Position(ErrorKind::Alt, p)),
            },
        },
    }
}

/// Parses a prefix expression at `p`.
pub fn unary_expr(s: &[u8], p: usize) -> (r: Outcome<Expr>)
    requires
        p <= s@.len(),
        input_fits(s@),
        !spec_unary(s@, p as int).is_abort(),
    ensures
        outcome_view(r) == spec_unary(s@, p as int),
        r matches Outcome::Done(q, _) ==> p < q <= s@.len(),
    decreases s@.len() - p, 2int,
{
    proof { lemma_sp(s@, p as int); }
    let a = skip_space(s, p);
    let first: Outcome<Expr> = if a == s.len() {
        Outcome::Incomplete(a + 1)
    } else if s[a] == 0x21 || s[a] == 0x7e {
        let op = if s[a] == 0x21 {
            UnaryOp::ConditionalNot
        } else {
            UnaryOp::BitwiseNot
        };
        proof { lemma_sp(s@, a + 1); }
        let b = skip_space(s, a + 1);
        match primary_expr(s, b) {
            Outcome::Done(r, e) => {
                proof { lemma_sp(s@, r as int); }
                Outcome::Done(skip_space(s, r), Expr::Unary(op, Box::new(e)))
            },
            o => o,
        }
    } else {
        Outcome::Error(Failure::Position(ErrorKind::Alt, a))
    };
    match first {
        Outcome::Error(_) => match primary_expr(s, a) {
            Outcome::Done(r, e) => {
                proof { lemma_sp(s@, r as int); }
                Outcome::Done(skip_space(s, r), e)
            },
            Outcome::Error(_) => Outcome::Error(Failure::Position(ErrorKind::Alt, a)),
            o => o,
        },
        o => o,
    }
}

/// Parses the operator token of binding level `level` at `p`.
fn op_tag(s: &[u8], p: usize, level: u8) -> (r: Outcome<()>)
    requires
        p <= s@.len(),
        input_fits(s@),
        1 <= level <= 6,
    ensures
        outcome_view(r) == spec_op_tag(s@, p as int, level as int),
        r matches Outcome::Done(q, _) ==> p < q <= s@.len(),
{
    let c: u8 = if level == 6 || level == 3 {
        0x7c
    } else if level == 5 || level == 2 {
        0x5e
    } else {
        0x26
    };
    if level >= 4 {
        tag2_at(s, p, c)
    } else {
        tag1_at(s, p, c)
    }
}

/// Parses an operator expression of binding level `level` at `p`.
pub fn binary_expr(s: &[u8], p: usize, level: u8) -> (r: Outcome<Expr>)
    requires
        p <= s@.len(),
        input_fits(s@),
        1 <= level <= 6,
        !spec_binexp(s@, p as int, level as int).is_abort(),
    ensures
        outcome_view(r) == spec_binexp(s@, p as int, level as int),
        r matches Outcome::Done(q, _) ==> p < q <= s@.len(),
    decreases s@.len() - p, level + 2,
{
    proof { lemma_sp(s@, p as int); }
    let a0 = skip_space(s, p);
    let first = if level == 1 {
        unary_expr(s, a0)
    } else {
        binary_expr(s, a0, level - 1)
    };
    let (q, a) = match first {
        Outcome::Done(q, a) => (q, a),
        o => return o,
    };
    proof { lemma_sp(s@, q as int); }
    let q1 = skip_space(s, q);
    let rhs = match op_tag(s, q1, level) {
        Outcome::Done(c, _) => {
            proof { lemma_sp(s@, c as int); }
            let d = skip_space(s, c);
            binary_expr(s, d, level)
        },
        o => fail_as(o),
    };
    match rhs {
        Outcome::Done(r, b) => {
            proof { lemma_sp(s@, r as int); }
            let op = if level == 6 {
                BinaryOp::ConditionalOr
            } else if level == 5 {
                BinaryOp::ConditionalXor
            } else if level == 4 {
                BinaryOp::ConditionalAnd
            } else if level == 3 {
                BinaryOp::BitwiseOr
            } else if level == 2 {
                BinaryOp::BitwiseXor
            } else {
                BinaryOp::BitwiseAnd
            };
            Outcome::Done(skip_space(s, r), Expr::Binary(Box::new(a), op, Box::new(b)))
        },
        _ => Outcome::Done(q1, a),
    }
}

/// Parses an expression at `p`.
pub fn expr(s: &[u8], p: usize) -> (r: Outcome<Expr>)
    requires
        p <= s@.len(),
        input_fits(s@),
        !spec_expr(s@, p as int).is_abort(),
    ensures
        outcome_view(r) == spec_expr(s@, p as int),
        r matches Outcome::Done(q, _) ==> p < q <= s@.len(),
    decreases s@.len() - p, 9int,
{
    match context(s, p) {
        Outcome::Done(q, e) => Outcome::Done(q, e),
        _ => match level_range(s, p) {
            Outcome::Done(q, e) => Outcome::Done(q, e),
            _ => match category_range(s, p) {
                Outcome::Done(q, e) => Outcome::Done(q, e),
                _ => match binary_expr(s, p, 6) {
                    Outcome::Done(q, e) => Outcome::Done(q, e),
                    _ => Outcome::Error(Failure::Position(ErrorKind::Alt, p)),
                },
            },
        },
    }
}

} // verus!
