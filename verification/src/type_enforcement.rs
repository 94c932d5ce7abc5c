//! Type enforcement statements: access vector rules.

use vstd::prelude::*;
use crate::ast::{AccessVector, AllowRuleType, SpecAccessVector, SpecStatement, Statement};
use crate::expr::{expr, primary_expr, spec_expr, spec_primary};
use crate::name::{spec_type_specifier, spec_variable, type_specifier, variable};
use crate::scan::{
    ErrorKind, Failure, Outcome, SOutcome, fail, fail_as, input_fits, lemma_sp, outcome_view,
    skip_space, sp, spec_tag1, tag1_at,
};

verus! {

/// A security class followed by a permission expression, white space
/// allowed around both.
pub open spec fn spec_class_and_permissions(s: Seq<u8>, p: int) -> SOutcome<SpecAccessVector> {
    match spec_variable(s, sp(s, p)) {
        SOutcome::Done(q1, class) => match spec_primary(s, sp(s, q1)) {
            SOutcome::Done(q2, perms) => SOutcome::Done(
                sp(s, q2),
                SpecAccessVector::ClassAndPermissions(class, perms),
            ),
            o => fail(o),
        },
        o => fail(o),
    }
}

/// An access vector: a class and a permission expression, or else a
/// permission expression alone.  Where neither parses on the input as it
/// stands (needing more input counts as not parsing), it fails with `Alt`
/// at `p`.
pub open spec fn spec_access_vector(s: Seq<u8>, p: int) -> SOutcome<SpecAccessVector> {
    match spec_class_and_permissions(s, p) {
        SOutcome::Done(q, a) => SOutcome::Done(q, a),
        SOutcome::Abort => SOutcome::Abort,
        _ => match spec_expr(s, p) {
            SOutcome::Done(q, e) => SOutcome::Done(q, SpecAccessVector::Permission(e)),
            SOutcome::Abort => SOutcome::Abort,
            _ => SOutcome::Error(Failure::Position(ErrorKind::Alt, p as usize)),
        },
    }
}

/// An access vector rule: a rule kind, a source, a target, `:`, an access
/// vector and `;`.
pub open spec fn spec_allow_rule(s: Seq<u8>, p: int) -> SOutcome<SpecStatement> {
    match spec_type_specifier::<AllowRuleType>(s, sp(s, p)) {
        SOutcome::Done(q1, rule_type) => match spec_primary(s, sp(s, q1)) {
            SOutcome::Done(q2, source) => match spec_primary(s, sp(s, q2)) {
                SOutcome::Done(q3, target) => match spec_tag1(s, sp(s, q3), 0x3a) {
                    SOutcome::Done(q4, _) => match spec_access_vector(s, sp(s, q4)) {
                        SOutcome::Done(q5, access_vector) => match spec_tag1(s, sp(s, q5), 0x3b) {
                            SOutcome::Done(q6, _) => SOutcome::Done(
                                sp(s, q6),
                                SpecStatement::AccessVectorRule {
                                    rule_type,
                                    source,
                                    target,
                                    access_vector,
                                },
                            ),
                            o => fail(o),
                        },
                        o => fail(o),
                    },
                    o => fail(o),
                },
                o => fail(o),
            },
            o => fail(o),
        },
        o => fail(o),
    }
}

/// Parses a class and a permission expression at `p`.
fn class_and_permissions(s: &[u8], p: usize) -> (r: Outcome<AccessVector>)
    requires
        p <= s@.len(),
        input_fits(s@),
        !spec_class_and_permissions(s@, p as int).is_abort(),
    ensures
        outcome_view(r) == spec_class_and_permissions(s@, p as int),
        r matches Outcome::Done(q, _) ==> p < q <= s@.len(),
{
    proof {
        lemma_sp(s@, p as int);
    }
    let a = skip_space(s, p);
    let (q1, class) = match variable(s, a) {
        Outcome::Done(q, e) => (q, e),
        o => return fail_as(o),
    };
    proof {
        lemma_sp(s@, q1 as int);
    }
    let b = skip_space(s, q1);
    let (q2, perms) = match primary_expr(s, b) {
        Outcome::Done(q, e) => (q, e),
        o => return fail_as(o),
    };
    proof {
        lemma_sp(s@, q2 as int);
    }
    Outcome::Done(skip_space(s, q2), AccessVector::ClassAndPermissions(class, perms))
}

/// Parses an access vector at `p`.
pub fn access_vector(s: &[u8], p: usize) -> (r: Outcome<AccessVector>)
    requires
        p <= s@.len(),
        input_fits(s@),
        !spec_access_vector(s@, p as int).is_abort(),
    ensures
        outcome_view(r) == spec_access_vector(s@, p as int),
        r matches Outcome::Done(q, _) ==> p < q <= s@.len(),
{
    match class_and_permissions(s, p) {
        Outcome::Done(q, a) => Outcome::Done(q, a),
        _ => match expr(s, p) {
            Outcome::Done(q, e) => Outcome::Done(q, AccessVector::Permission(e)),
            _ => Outcome::Error(Failure::Position(ErrorKind::Alt, p)),
        },
    }
}

/// Parses an access vector rule at `p`.
pub fn allow_rule(s: &[u8], p: usize) -> (r: Outcome<Statement>)
    requires
        p <= s@.len(),
        input_fits(s@),
        !spec_allow_rule(s@, p as int).is_abort(),
    ensures
        outcome_view(r) == spec_allow_rule(s@, p as int),
        r matches Outcome::Done(q, _) ==> p < q <= s@.len(),
{
    proof {
        lemma_sp(s@, p as int);
    }
    let a = skip_space(s, p);
    let (q1, rule_type) = match type_specifier::<AllowRuleType>(s, a) {
        Outcome::Done(q, t) => (q, t),
        o => return fail_as(o),
    };
    proof {
        lemma_sp(s@, q1 as int);
    }
    let b = skip_space(s, q1);
    let (q2, source) = match primary_expr(s, b) {
        Outcome::Done(q, e) => (q, e),
        o => return fail_as(o),
    };
    proof {
        lemma_sp(s@, q2 as int);
    }
    let c = skip_space(s, q2);
    let (q3, target) = match primary_expr(s, c) {
        Outcome::Done(q, e) => (q, e),
        o => return fail_as(o),
    };
    proof {
        lemma_sp(s@, q3 as int);
    }
    let d = skip_space(s, q3);
    let q4 = match tag1_at(s, d, 0x3a) {
        Outcome::Done(q, _) => q,
        o => return fail_as(o),
    };
    proof {
        lemma_sp(s@, q4 as int);
    }
    let e = skip_space(s, q4);
    let (q5, av) = match access_vector(s, e) {
        Outcome::Done(q, v) => (q, v),
        o => return fail_as(o),
    };
    proof {
        lemma_sp(s@, q5 as int);
    }
    let f = skip_space(s, q5);
    let q6 = match tag1_at(s, f, 0x3b) {
        Outcome::Done(q, _) => q,
        o => return fail_as(o),
    };
    proof {
        lemma_sp(s@, q6 as int);
    }
    Outcome::Done(
        skip_space(s, q6),
        Statement::AccessVectorRule {
            rule_type,
            source: Box::new(source),
            target: Box::new(target),
            access_vector: Box::new(av),
        },
    )
}

} // verus!
