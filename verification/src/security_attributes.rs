//! Security attribute literals: contexts, levels, level ranges and
//! category ranges.

use vstd::prelude::*;
use crate::ast::{Expr, SpecExpr};
use crate::name::{spec_variable, variable};
use crate::scan::{
    ErrorKind, Failure, Outcome, SOutcome, char_at, fail, fail_as, identifier_at, input_fits, lemma_sp, outcome_view,
    skip_space, sp, spec_char, spec_identifier, spec_tag1, tag1_at,
};

verus! {

/// A category range `lo . hi`, white space allowed around the dot and after.
pub open spec fn spec_category_range(s: Seq<u8>, p: int) -> SOutcome<SpecExpr> {
    let a = sp(s, p);
    match spec_identifier(s, a) {
        SOutcome::Done(q1, lo) => match spec_tag1(s, sp(s, q1), 0x2e) {
            SOutcome::Done(q2, _) => match spec_identifier(s, sp(s, q2)) {
                SOutcome::Done(q3, hi) => SOutcome::Done(sp(s, q3), SpecExpr::CategoryRange(lo, hi)),
                o => fail(o),
            },
            o => fail(o),
        },
        o => fail(o),
    }
}

/// A category range, or else a variable.
pub open spec fn spec_category_range_or_id(s: Seq<u8>, p: int) -> SOutcome<SpecExpr> {
    match spec_category_range(s, p) {
        SOutcome::Done(q, e) => SOutcome::Done(q, e),
        SOutcome::Abort => SOutcome::Abort,
        _ => match spec_variable(s, p) {
            SOutcome::Done(q, e) => SOutcome::Done(q, e),
            SOutcome::Abort => SOutcome::Abort,
            _ => SOutcome::Error(Failure::Position(ErrorKind::Alt, p as usize)),
        },
    }
}

/// A level `sensitivity:categories`, with no white space.
pub open spec fn spec_level(s: Seq<u8>, p: int) -> SOutcome<SpecExpr> {
    match spec_identifier(s, p) {
        SOutcome::Done(q1, sens) => match spec_tag1(s, q1, 0x3a) {
            SOutcome::Done(q2, _) => match spec_category_range_or_id(s, q2) {
                SOutcome::Done(q3, cats) => SOutcome::Done(
                    q3,
                    SpecExpr::Level { sensitivity: sens, categories: Box::new(cats) },
                ),
                o => fail(o),
            },
            o => fail(o),
        },
        o => fail(o),
    }
}

/// A level, or else a variable.
pub open spec fn spec_level_or_id(s: Seq<u8>, p: int) -> SOutcome<SpecExpr> {
    match spec_level(s, p) {
        SOutcome::Done(q, e) => SOutcome::Done(q, e),
        SOutcome::Abort => SOutcome::Abort,
        _ => match spec_variable(s, p) {
            SOutcome::Done(q, e) => SOutcome::Done(q, e),
            SOutcome::Abort => SOutcome::Abort,
            _ => SOutcome::Error(Failure::Position(ErrorKind::Alt, p as usize)),
        },
    }
}

/// A level range `low - high`, white space allowed around the hyphen.
pub open spec fn spec_level_range(s: Seq<u8>, p: int) -> SOutcome<SpecExpr> {
    match spec_level_or_id(s, sp(s, p)) {
        SOutcome::Done(q1, lo) => match spec_tag1(s, sp(s, q1), 0x2d) {
            SOutcome::Done(q2, _) => match spec_level_or_id(s, sp(s, q2)) {
                SOutcome::Done(q3, hi) => SOutcome::Done(
                    sp(s, q3),
                    SpecExpr::LevelRange(Box::new(lo), Box::new(hi)),
                ),
                o => fail(o),
            },
            o => fail(o),
        },
        o => fail(o),
    }
}

/// The optional `: level_range` tail of a context at `d`: the offset
/// after it and the range, or `d` and nothing where it does not parse.
pub open spec fn spec_context_tail(s: Seq<u8>, d: int) -> Option<(int, Option<SpecExpr>)> {
    match spec_char(s, d, 0x3a) {
        SOutcome::Done(e, _) => match spec_level_range(s, e) {
            SOutcome::Done(f, lr) => Some((f, Some(lr))),
            SOutcome::Abort => None,
            _ => Some((d, None)),
        },
        SOutcome::Abort => None,
        _ => Some((d, None)),
    }
}

/// A security context `user:role:type`, optionally followed by
/// `:level_range`.
pub open spec fn spec_context(s: Seq<u8>, p: int) -> SOutcome<SpecExpr> {
    match spec_identifier(s, sp(s, p)) {
        SOutcome::Done(q1, user) => match spec_char(s, sp(s, q1), 0x3a) {
            SOutcome::Done(q2, _) => match spec_identifier(s, sp(s, q2)) {
                SOutcome::Done(q3, role) => match spec_char(s, sp(s, q3), 0x3a) {
                    SOutcome::Done(q4, _) => match spec_identifier(s, sp(s, q4)) {
                        SOutcome::Done(q5, ty) => match spec_context_tail(s, sp(s, q5)) {
                            Some((f, lr)) => SOutcome::Done(
                                sp(s, f),
                                SpecExpr::Context {
                                    user_id: user,
                                    role_id: role,
                                    type_id: ty,
                                    level_range: match lr {
                                        Some(l) => Some(Box::new(l)),
                                        None => None,
                                    },
                                },
                            ),
                            None => SOutcome::Abort,
                        },
                        o => fail(o),
                    },
                    o => fail(o),
                },
                o => fail(o),
            },
            o => fail(o),
        },
        o => fail(o),
    }
}

/// Parses a category range at `p`.
pub fn category_range(s: &[u8], p: usize) -> (r: Outcome<Expr>)
    requires
        p <= s@.len(),
        input_fits(s@),
        !spec_category_range(s@, p as int).is_abort(),
    ensures
        outcome_view(r) == spec_category_range(s@, p as int),
        r matches Outcome::Done(q, _) ==> p < q <= s@.len(),
{
    proof { lemma_sp(s@, p as int); }
    let a = skip_space(s, p);
    match identifier_at(s, a) {
        Outcome::Done(q1, lo) => {
            proof { lemma_sp(s@, q1 as int); }
            let b = skip_space(s, q1);
            match tag1_at(s, b, 0x2e) {
                Outcome::Done(q2, _) => {
                    proof { lemma_sp(s@, q2 as int); }
                    let c = skip_space(s, q2);
                    match identifier_at(s, c) {
                        Outcome::Done(q3, hi) => {
                            proof { lemma_sp(s@, q3 as int); }
                            Outcome::Done(skip_space(s, q3), Expr::CategoryRange(lo, hi))
                        },
                        o => fail_as(o),
                    }
                },
                o => fail_as(o),
            }
        },
        o => fail_as(o),
    }
}

/// Parses a category range, or else a variable, at `p`.
pub fn category_range_or_id(s: &[u8], p: usize) -> (r: Outcome<Expr>)
    requires
        p <= s@.len(),
        input_fits(s@),
        !spec_category_range_or_id(s@, p as int).is_abort(),
    ensures
        outcome_view(r) == spec_category_range_or_id(s@, p as int),
        r matches Outcome::Done(q, _) ==> p < q <= s@.len(),
{
    match category_range(s, p) {
        Outcome::Done(q, e) => Outcome::Done(q, e),
        _ => match variable(s, p) {
            Outcome::Done(q, e) => Outcome::Done(q, e),
            _ => Outcome::Error(Failure::Position(ErrorKind::Alt, p)),
        },
    }
}

/// Parses a level at `p`.
pub fn level(s: &[u8], p: usize) -> (r: Outcome<Expr>)
    requires
        p <= s@.len(),
        input_fits(s@),
        !spec_level(s@, p as int).is_abort(),
    ensures
        outcome_view(r) == spec_level(s@, p as int),
        r matches Outcome::Done(q, _) ==> p < q <= s@.len(),
{
    match identifier_at(s, p) {
        Outcome::Done(q1, sens) => match tag1_at(s, q1, 0x3a) {
            Outcome::Done(q2, _) => match category_range_or_id(s, q2) {
                Outcome::Done(q3, cats) => Outcome::Done(
                    q3,
                    Expr::Level { sensitivity: sens, categories: Box::new(cats) },
                ),
                o => fail_as(o),
            },
            o => fail_as(o),
        },
        o => fail_as(o),
    }
}

/// Parses a level, or else a variable, at `p`.
pub fn level_or_id(s: &[u8], p: usize) -> (r: Outcome<Expr>)
    requires
        p <= s@.len(),
        input_fits(s@),
        !spec_level_or_id(s@, p as int).is_abort(),
    ensures
        outcome_view(r) == spec_level_or_id(s@, p as int),
        r matches Outcome::Done(q, _) ==> p < q <= s@.len(),
{
    match level(s, p) {
        Outcome::Done(q, e) => Outcome::Done(q, e),
        _ => match variable(s, p) {
            Outcome::Done(q, e) => Outcome::Done(q, e),
            _ => Outcome::Error(Failure::Position(ErrorKind::Alt, p)),
        },
    }
}

/// Parses a level range at `p`.
pub fn level_range(s: &[u8], p: usize) -> (r: Outcome<Expr>)
    requires
        p <= s@.len(),
        input_fits(s@),
        !spec_level_range(s@, p as int).is_abort(),
    ensures
        outcome_view(r) == spec_level_range(s@, p as int),
        r matches Outcome::Done(q, _) ==> p < q <= s@.len(),
{
    proof { lemma_sp(s@, p as int); }
    let a = skip_space(s, p);
    match level_or_id(s, a) {
        Outcome::Done(q1, lo) => {
            proof { lemma_sp(s@, q1 as int); }
            let b = skip_space(s, q1);
            match tag1_at(s, b, 0x2d) {
                Outcome::Done(q2, _) => {
                    proof { lemma_sp(s@, q2 as int); }
                    let c = skip_space(s, q2);
                    match level_or_id(s, c) {
                        Outcome::Done(q3, hi) => {
                            proof { lemma_sp(s@, q3 as int); }
                            Outcome::Done(
                                skip_space(s, q3),
                                Expr::LevelRange(Box::new(lo), Box::new(hi)),
                            )
                        },
                        o => fail_as(o),
                    }
                },
                o => fail_as(o),
            }
        },
        o => fail_as(o),
    }
}

/// Parses the optional `: level_range` tail of a context at `d`.
fn context_tail(s: &[u8], d: usize) -> (r: (usize, Option<Box<Expr>>))
    requires
        d <= s@.len(),
        input_fits(s@),
        spec_context_tail(s@, d as int) is Some,
    ensures
        spec_context_tail(s@, d as int) == Some(
            (
                r.0 as int,
                match r.1 {
                    Some(l) => Some(crate::ast::expr_view(*l)),
                    None => None,
                },
            ),
        ),
        d <= r.0 <= s@.len(),
{
    match char_at(s, d, 0x3a) {
        Outcome::Done(e, _) => match level_range(s, e) {
            Outcome::Done(f, lr) => (f, Some(Box::new(lr))),
            _ => (d, None),
        },
        _ => (d, None),
    }
}

/// Parses a security context at `p`.
pub fn context(s: &[u8], p: usize) -> (r: Outcome<Expr>)
    requires
        p <= s@.len(),
        input_fits(s@),
        !spec_context(s@, p as int).is_abort(),
    ensures
        outcome_view(r) == spec_context(s@, p as int),
        r matches Outcome::Done(q, _) ==> p < q <= s@.len(),
{
    proof { lemma_sp(s@, p as int); }
    let a = skip_space(s, p);
    let (q1, user) = match identifier_at(s, a) {
        Outcome::Done(q1, user) => (q1, user),
        o => return fail_as(o),
    };
    proof { lemma_sp(s@, q1 as int); }
    let b = skip_space(s, q1);
    let q2 = match char_at(s, b, 0x3a) {
        Outcome::Done(q2, _) => q2,
        o => return fail_as(o),
    };
    proof { lemma_sp(s@, q2 as int); }
    let c = skip_space(s, q2);
    let (q3, role) = match identifier_at(s, c) {
        Outcome::Done(q3, role) => (q3, role),
        o => return fail_as(o),
    };
    proof { lemma_sp(s@, q3 as int); }
    let d = skip_space(s, q3);
    let q4 = match char_at(s, d, 0x3a) {
        Outcome::Done(q4, _) => q4,
        o => return fail_as(o),
    };
    proof { lemma_sp(s@, q4 as int); }
    let e = skip_space(s, q4);
    let (q5, ty) = match identifier_at(s, e) {
        Outcome::Done(q5, ty) => (q5, ty),
        o => return fail_as(o),
    };
    proof { lemma_sp(s@, q5 as int); }
    let f = skip_space(s, q5);
    let (g, level_range) = context_tail(s, f);
    proof { lemma_sp(s@, g as int); }
    Outcome::Done(
        skip_space(s, g),
        Expr::Context { user_id: user, role_id: role, type_id: ty, level_range },
    )
}

} // verus!
