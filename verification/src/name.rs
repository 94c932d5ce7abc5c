//! Names: variables and type specifier keywords.

use vstd::prelude::*;
use crate::ast::{Expr, SpecExpr, TypeSpecifier};
use crate::scan::{
    ErrorKind, Failure, Outcome, SOutcome, fail, fail_as, identifier_at, input_fits, outcome_plain,
    outcome_view, spec_identifier,
};

verus! {

/// A variable expression: an identifier.
pub open spec fn spec_variable(s: Seq<u8>, p: int) -> SOutcome<SpecExpr> {
    match spec_identifier(s, p) {
        SOutcome::Done(q, id) => SOutcome::Done(q, SpecExpr::Variable(id)),
        o => fail(o),
    }
}

/// A type specifier: an identifier that names a specifier of kind `T`.
/// Any other identifier fails with `AlphaNumeric`, with no offset.
pub open spec fn spec_type_specifier<T: TypeSpecifier>(s: Seq<u8>, p: int) -> SOutcome<T> {
    match spec_identifier(s, p) {
        SOutcome::Done(q, id) => match T::spec_from(id) {
            Some(t) => SOutcome::Done(q, t),
            None => SOutcome::Error(Failure::Code(ErrorKind::AlphaNumeric)),
        },
        o => fail(o),
    }
}

/// Parses a variable at `p`.
pub fn variable(s: &[u8], p: usize) -> (r: Outcome<Expr>)
    requires
        p <= s@.len(),
        input_fits(s@),
        !spec_variable(s@, p as int).is_abort(),
    ensures
        outcome_view(r) == spec_variable(s@, p as int),
        r matches Outcome::Done(q, _) ==> p < q <= s@.len(),
{
    match identifier_at(s, p) {
        Outcome::Done(q, id) => Outcome::Done(q, Expr::Variable(id)),
        o => fail_as(o),
    }
}

/// Parses a type specifier of kind `T` at `p`.
pub fn type_specifier<T: TypeSpecifier>(s: &[u8], p: usize) -> (r: Outcome<T>)
    requires
        p <= s@.len(),
        input_fits(s@),
        !spec_type_specifier::<T>(s@, p as int).is_abort(),
    ensures
        outcome_plain(r) == spec_type_specifier::<T>(s@, p as int),
        r matches Outcome::Done(q, _) ==> p < q <= s@.len(),
{
    match identifier_at(s, p) {
        Outcome::Done(q, id) => match T::from(id.as_str()) {
            Some(t) => Outcome::Done(q, t),
            None => Outcome::Error(Failure::Code(ErrorKind::AlphaNumeric)),
        },
        o => fail_as(o),
    }
}

} // verus!
