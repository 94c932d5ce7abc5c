//! Statements: declarations of blocks, macros and symbols, macro calls and
//! conditionals, and lists of statements.

use vstd::prelude::*;
use crate::ast::{
    BlockType, Declaration, Expr, MacroParameter, SpecDeclaration, SpecExpr, SpecMacroParameter,
    SpecStatement, Statement, SymbolType, else_ifs_view, expr_view, lemma_else_ifs_view_push,
    lemma_stmts_view_empty, lemma_stmts_view_push, stmts_view,
};
use crate::expr::{expr, spec_expr};
use crate::name::{spec_type_specifier, type_specifier};
use crate::scan::{
    ErrorKind, Failure, Outcome, SOutcome, char_at, fail, fail_as, identifier_at, input_fits,
    StatementKeyword, keyword_bytes, kw_abstract, kw_else, kw_elseif, kw_if, kw_macro, lemma_sp, outcome_plain,
    outcome_view, skip_space, sp, spec_char, spec_identifier, spec_tag, spec_tag1, tag1_at, tag_at,
    trail,
};

verus! {

/// A list of statements from `i`, after the statements `acc`: statements
/// are read until the end of the input or until one fails; a statement
/// that consumes nothing makes the list fail with `Many0`.  With `wrapped`,
/// white space is skipped around each statement.
pub open spec fn spec_stmts_from(
    s: Seq<u8>,
    i: int,
    acc: Seq<SpecStatement>,
    wrapped: bool,
) -> SOutcome<Seq<SpecStatement>>
    decreases s.len() - i, 20int,
{
    if i < 0 || i > s.len() {
        SOutcome::Abort
    } else if i == s.len() {
        SOutcome::Done(i, acc)
    } else {
        proof {
            lemma_sp(s, i);
        }
        let item = if wrapped {
            trail(s, spec_statement(s, sp(s, i)))
        } else {
            spec_statement(s, i)
        };
        match item {
            SOutcome::Error(_) => SOutcome::Done(i, acc),
            SOutcome::Incomplete(n) => SOutcome::Incomplete(n),
            SOutcome::Abort => SOutcome::Abort,
            SOutcome::Done(q, o) => if i < q <= s.len() {
                spec_stmts_from(s, q, acc.push(o), wrapped)
            } else {
                SOutcome::Error(Failure::Position(ErrorKind::Many0, i as usize))
            },
        }
    }
}

/// A statement: a declaration, a macro call, or a conditional.  When none
/// parses it fails with `Alt` at `p`; a statement that needs more input
/// stops the search.
pub open spec fn spec_statement(s: Seq<u8>, p: int) -> SOutcome<SpecStatement>
    decreases s.len() - p, 19int,
{
    if p < 0 || p > s.len() {
        SOutcome::Abort
    } else {
        match spec_declaration(s, p) {
            SOutcome::Done(q, d) => SOutcome::Done(q, SpecStatement::Declaration(d)),
            SOutcome::Error(_) => match spec_macro_call(s, p) {
                SOutcome::Error(_) => match spec_if_else(s, p) {
                    SOutcome::Error(_) => SOutcome::Error(Failure::Position(ErrorKind::Alt, p as usize)),
                    o => o,
                },
                o => o,
            },
            o => fail(o),
        }
    }
}

/// A declaration of a block, a macro or a symbol.
pub open spec fn spec_declaration(s: Seq<u8>, p: int) -> SOutcome<SpecDeclaration>
    decreases s.len() - p, 18int,
{
    if p < 0 || p > s.len() {
        SOutcome::Abort
    } else {
        match spec_block_declaration(s, p) {
            SOutcome::Error(_) => match spec_macro_declaration(s, p) {
                SOutcome::Error(_) => match spec_symbol_declaration(s, p) {
                    SOutcome::Error(_) => SOutcome::Error(Failure::Position(ErrorKind::Alt, p as usize)),
                    o => o,
                },
                o => o,
            },
            o => o,
        }
    }
}

/// The optional `abstract` modifier at `a`: the offset after it and whether
/// it is there.
pub open spec fn spec_abstract_mark(s: Seq<u8>, a: int) -> SOutcome<bool> {
    match spec_tag(s, a, kw_abstract()) {
        SOutcome::Done(q, _) => SOutcome::Done(q, true),
        SOutcome::Error(_) => SOutcome::Done(a, false),
        o => fail(o),
    }
}

/// A container declaration: `abstract`?, `block` or `optional`, a name,
/// and a braced list of statements.
pub open spec fn spec_block_declaration(s: Seq<u8>, p: int) -> SOutcome<SpecDeclaration>
    decreases s.len() - p, 17int,
{
    if p < 0 || p > s.len() {
        SOutcome::Abort
    } else {
        match spec_abstract_mark(s, sp(s, p)) {
            SOutcome::Done(q0, is_abstract) => match spec_type_specifier::<BlockType>(s, sp(s, q0)) {
                SOutcome::Done(q1, qualifier) => match spec_identifier(s, sp(s, q1)) {
                    SOutcome::Done(q2, name) => match spec_char(s, sp(s, q2), 0x7b) {
                        SOutcome::Done(q3, _) => {
                            let e = sp(s, q3);
                            let body = if p < e <= s.len() {
                                spec_stmts_from(s, e, Seq::empty(), true)
                            } else {
                                SOutcome::Abort
                            };
                            match body {
                                SOutcome::Done(q4, statements) => match spec_char(s, sp(s, q4), 0x7d) {
                                    SOutcome::Done(q5, _) => SOutcome::Done(
                                        sp(s, q5),
                                        SpecDeclaration::Block {
                                            is_abstract,
                                            qualifier,
                                            name,
                                            statements,
                                            extends: None,
                                        },
                                    ),
                                    o => fail(o),
                                },
                                o => fail(o),
                            }
                        },
                        o => fail(o),
                    },
                    o => fail(o),
                },
                o => fail(o),
            },
            o => fail(o),
        }
    }
}

/// A macro definition: `macro`, a name, a parenthesised parameter list,
/// and a braced list of statements.
pub open spec fn spec_macro_declaration(s: Seq<u8>, p: int) -> SOutcome<SpecDeclaration>
    decreases s.len() - p, 17int,
{
    if p < 0 || p > s.len() {
        SOutcome::Abort
    } else {
        match spec_tag(s, sp(s, p), kw_macro()) {
            SOutcome::Done(q1, _) => match spec_identifier(s, sp(s, q1)) {
                SOutcome::Done(q2, name) => match spec_tag1(s, sp(s, q2), 0x28) {
                    SOutcome::Done(q3, _) => match spec_macro_param_list(s, sp(s, q3)) {
                        SOutcome::Done(q4, parameters) => match spec_tag1(s, sp(s, q4), 0x29) {
                            SOutcome::Done(q5, _) => match spec_tag1(s, sp(s, q5), 0x7b) {
                                SOutcome::Done(q6, _) => {
                                    let e = sp(s, q6);
                                    let body = if p < e <= s.len() {
                                        spec_stmts_from(s, e, Seq::empty(), false)
                                    } else {
                                        SOutcome::Abort
                                    };
                                    match body {
                                        SOutcome::Done(q7, statements) => match spec_tag1(s, sp(s, q7), 0x7d) {
                                            SOutcome::Done(q8, _) => SOutcome::Done(
                                                sp(s, q8),
                                                SpecDeclaration::Macro { name, parameters, statements },
                                            ),
                                            o => fail(o),
                                        },
                                        o => fail(o),
                                    }
                                },
                                o => fail(o),
                            },
                            o => fail(o),
                        },
                        o => fail(o),
                    },
                    o => fail(o),
                },
                o => fail(o),
            },
            o => fail(o),
        }
    }
}

/// The braced statement list of a conditional branch at `b`: `{`, the
/// statements (no white space skipped before the first), `}`.
pub open spec fn spec_branch(s: Seq<u8>, p: int, b: int) -> SOutcome<Seq<SpecStatement>>
    decreases s.len() - p, 16int,
{
    match spec_char(s, b, 0x7b) {
        SOutcome::Done(c, _) => {
            let body = if p < c <= s.len() {
                spec_stmts_from(s, c, Seq::empty(), false)
            } else {
                SOutcome::Abort
            };
            match body {
                SOutcome::Done(q, stmts) => match spec_char(s, q, 0x7d) {
                    SOutcome::Done(r, _) => SOutcome::Done(r, stmts),
                    o => fail(o),
                },
                o => fail(o),
            }
        },
        o => fail(o),
    }
}

/// A conditional: `if`, a condition, a braced then-branch, any number of
/// `elseif` branches, and an optional `else` branch written `else{`.
pub open spec fn spec_if_else(s: Seq<u8>, p: int) -> SOutcome<SpecStatement>
    decreases s.len() - p, 17int,
{
    if p < 0 || p > s.len() {
        SOutcome::Abort
    } else {
        match spec_tag(s, sp(s, p), kw_if()) {
            SOutcome::Done(q1, _) => match spec_expr(s, sp(s, q1)) {
                SOutcome::Done(q2, condition) => match spec_char(s, sp(s, q2), 0x7b) {
                    SOutcome::Done(q3, _) => {
                        let e = sp(s, q3);
                        let body = if p < e <= s.len() {
                            spec_stmts_from(s, e, Seq::empty(), false)
                        } else {
                            SOutcome::Abort
                        };
                        match body {
                            SOutcome::Done(q4, then_block) => match spec_char(s, sp(s, q4), 0x7d) {
                                SOutcome::Done(q5, _) => {
                                    let f = sp(s, q5);
                                    let elifs = if p < f <= s.len() {
                                        spec_else_ifs_from(s, f, Seq::empty())
                                    } else {
                                        SOutcome::Abort
                                    };
                                    match elifs {
                                        SOutcome::Done(q6, else_ifs) => {
                                            let g = sp(s, q6);
                                            let tail = match spec_tag(s, g, kw_else()) {
                                                SOutcome::Done(h, _) => if p < h <= s.len() {
                                                    match spec_branch(s, p, h) {
                                                        SOutcome::Done(r, blk) => SOutcome::Done(r, Some(blk)),
                                                        SOutcome::Abort => SOutcome::Abort,
                                                        _ => SOutcome::Done(g, None),
                                                    }
                                                } else {
                                                    SOutcome::Abort
                                                },
                                                SOutcome::Abort => SOutcome::Abort,
                                                _ => SOutcome::Done(g, None),
                                            };
                                            match tail {
                                                SOutcome::Done(r, else_block) => SOutcome::Done(
                                                    sp(s, r),
                                                    SpecStatement::IfElse {
                                                        condition,
                                                        then_block,
                                                        else_ifs,
                                                        else_block,
                                                    },
                                                ),
                                                o => fail(o),
                                            }
                                        },
                                        o => fail(o),
                                    }
                                },
                                o => fail(o),
                            },
                            o => fail(o),
                        }
                    },
                    o => fail(o),
                },
                o => fail(o),
            },
            o => fail(o),
        }
    }
}

/// The `elseif` branches from `i`, after the branches `acc`, each with
/// white space around it.
pub open spec fn spec_else_ifs_from(
    s: Seq<u8>,
    i: int,
    acc: Seq<(SpecExpr, Seq<SpecStatement>)>,
) -> SOutcome<Seq<(SpecExpr, Seq<SpecStatement>)>>
    decreases s.len() - i, 16int,
{
    if i < 0 || i > s.len() {
        SOutcome::Abort
    } else if i == s.len() {
        SOutcome::Done(i, acc)
    } else {
        proof {
            lemma_sp(s, i);
        }
        match trail(s, spec_else_if(s, sp(s, i))) {
            SOutcome::Error(_) => SOutcome::Done(i, acc),
            SOutcome::Incomplete(n) => SOutcome::Incomplete(n),
            SOutcome::Abort => SOutcome::Abort,
            SOutcome::Done(q, o) => if i < q <= s.len() {
                spec_else_ifs_from(s, q, acc.push(o))
            } else {
                SOutcome::Error(Failure::Position(ErrorKind::Many0, i as usize))
            },
        }
    }
}

/// An `elseif` branch: `elseif`, a condition, and a braced statement list.
pub open spec fn spec_else_if(s: Seq<u8>, p: int) -> SOutcome<(SpecExpr, Seq<SpecStatement>)>
    decreases s.len() - p, 15int,
{
    if p < 0 || p > s.len() {
        SOutcome::Abort
    } else {
        match spec_tag(s, sp(s, p), kw_elseif()) {
            SOutcome::Done(q1, _) => match spec_expr(s, sp(s, q1)) {
                SOutcome::Done(q2, condition) => match spec_tag1(s, sp(s, q2), 0x7b) {
                    SOutcome::Done(q3, _) => {
                        let e = sp(s, q3);
                        let body = if p < e <= s.len() {
                            spec_stmts_from(s, e, Seq::empty(), false)
                        } else {
                            SOutcome::Abort
                        };
                        match body {
                            SOutcome::Done(q4, stmts) => match spec_tag1(s, sp(s, q4), 0x7d) {
                                SOutcome::Done(q5, _) => SOutcome::Done(sp(s, q5), (condition, stmts)),
                                o => fail(o),
                            },
                            o => fail(o),
                        }
                    },
                    o => fail(o),
                },
                o => fail(o),
            },
            o => fail(o),
        }
    }
}

/// A symbol declaration: a symbol type, a name, an optional `= expr`
/// initializer, and `;`.
pub open spec fn spec_symbol_declaration(s: Seq<u8>, p: int) -> SOutcome<SpecDeclaration> {
    match spec_type_specifier::<SymbolType>(s, sp(s, p)) {
        SOutcome::Done(q1, qualifier) => match spec_identifier(s, sp(s, q1)) {
            SOutcome::Done(q2, name) => {
                let c = sp(s, q2);
                let init = match spec_tag1(s, c, 0x3d) {
                    SOutcome::Done(d, _) => match spec_expr(s, d) {
                        SOutcome::Done(r, e) => SOutcome::Done(r, Some(e)),
                        SOutcome::Error(_) => SOutcome::Done(c, None),
                        o => fail(o),
                    },
                    SOutcome::Error(_) => SOutcome::Done(c, None),
                    o => fail(o),
                };
                match init {
                    SOutcome::Done(r, initializer) => match spec_char(s, sp(s, r), 0x3b) {
                        SOutcome::Done(q3, _) => SOutcome::Done(
                            sp(s, q3),
                            SpecDeclaration::Symbol { qualifier, name, initializer },
                        ),
                        o => fail(o),
                    },
                    o => fail(o),
                }
            },
            o => fail(o),
        },
        o => fail(o),
    }
}

/// A macro parameter: a symbol type and a name.
pub open spec fn spec_macro_param(s: Seq<u8>, p: int) -> SOutcome<SpecMacroParameter> {
    match spec_type_specifier::<SymbolType>(s, sp(s, p)) {
        SOutcome::Done(q1, qualifier) => match spec_identifier(s, sp(s, q1)) {
            SOutcome::Done(q2, name) => SOutcome::Done(
                sp(s, q2),
                SpecMacroParameter { qualifier, name },
            ),
            o => fail(o),
        },
        o => fail(o),
    }
}

/// One further parameter of a parameter list: `,` and a parameter.
pub open spec fn spec_comma_param(s: Seq<u8>, i: int) -> SOutcome<SpecMacroParameter> {
    match spec_char(s, sp(s, i), 0x2c) {
        SOutcome::Done(c, _) => spec_macro_param(s, sp(s, c)),
        o => fail(o),
    }
}

/// The further parameters from `i`, after the parameters `acc`.
pub open spec fn spec_params_from(
    s: Seq<u8>,
    i: int,
    acc: Seq<SpecMacroParameter>,
) -> SOutcome<Seq<SpecMacroParameter>>
    decreases s.len() - i,
{
    if i < 0 || i > s.len() {
        SOutcome::Abort
    } else if i == s.len() {
        SOutcome::Done(i, acc)
    } else {
        match spec_comma_param(s, i) {
            SOutcome::Error(_) => SOutcome::Done(i, acc),
            SOutcome::Incomplete(n) => SOutcome::Incomplete(n),
            SOutcome::Abort => SOutcome::Abort,
            SOutcome::Done(q, o) => if i < q <= s.len() {
                spec_params_from(s, q, acc.push(o))
            } else {
                SOutcome::Error(Failure::Position(ErrorKind::Many0, i as usize))
            },
        }
    }
}

/// A parameter list: one or more parameters separated by commas.
pub open spec fn spec_macro_param_list(s: Seq<u8>, p: int) -> SOutcome<Seq<SpecMacroParameter>> {
    match spec_macro_param(s, sp(s, p)) {
        SOutcome::Done(q1, first) => match spec_params_from(s, q1, seq![first]) {
            SOutcome::Done(q, ps) => SOutcome::Done(sp(s, q), ps),
            o => o,
        },
        o => fail(o),
    }
}

/// One further argument of an argument list: `,` and an expression.
pub open spec fn spec_comma_arg(s: Seq<u8>, i: int) -> SOutcome<SpecExpr> {
    match spec_char(s, sp(s, i), 0x2c) {
        SOutcome::Done(c, _) => trail(s, spec_expr(s, sp(s, c))),
        o => fail(o),
    }
}

/// The further arguments from `i`, after the arguments `acc`.
pub open spec fn spec_args_from(s: Seq<u8>, i: int, acc: Seq<SpecExpr>) -> SOutcome<Seq<SpecExpr>>
    decreases s.len() - i,
{
    if i < 0 || i > s.len() {
        SOutcome::Abort
    } else if i == s.len() {
        SOutcome::Done(i, acc)
    } else {
        match spec_comma_arg(s, i) {
            SOutcome::Error(_) => SOutcome::Done(i, acc),
            SOutcome::Incomplete(n) => SOutcome::Incomplete(n),
            SOutcome::Abort => SOutcome::Abort,
            SOutcome::Done(q, o) => if i < q <= s.len() {
                spec_args_from(s, q, acc.push(o))
            } else {
                SOutcome::Error(Failure::Position(ErrorKind::Many0, i as usize))
            },
        }
    }
}

/// An argument list: one or more expressions separated by commas.
pub open spec fn spec_macro_argument_list(s: Seq<u8>, p: int) -> SOutcome<Seq<SpecExpr>> {
    match trail(s, spec_expr(s, sp(s, p))) {
        SOutcome::Done(q1, first) => match spec_args_from(s, q1, seq![first]) {
            SOutcome::Done(q, args) => SOutcome::Done(sp(s, q), args),
            o => o,
        },
        o => fail(o),
    }
}

/// A macro call: a name, a parenthesised argument list, and `;`.
pub open spec fn spec_macro_call(s: Seq<u8>, p: int) -> SOutcome<SpecStatement> {
    match spec_identifier(s, sp(s, p)) {
        SOutcome::Done(q1, name) => match spec_tag1(s, sp(s, q1), 0x28) {
            SOutcome::Done(q2, _) => match spec_macro_argument_list(s, sp(s, q2)) {
                SOutcome::Done(q3, args) => match spec_tag1(s, sp(s, q3), 0x29) {
                    SOutcome::Done(q4, _) => match spec_tag1(s, sp(s, q4), 0x3b) {
                        SOutcome::Done(q5, _) => SOutcome::Done(
                            sp(s, q5),
                            SpecStatement::MacroCall(name, args),
                        ),
                        o => fail(o),
                    },
                    o => fail(o),
                },
                o => fail(o),
            },
            o => fail(o),
        },
        o => fail(o),
    }
}

} // verus!

verus! {

/// The model of the outcome of a statement list.
pub open spec fn stmts_outcome(o: Outcome<Vec<Statement>>) -> SOutcome<Seq<SpecStatement>> {
    match o {
        Outcome::Done(q, v) => SOutcome::Done(q as int, stmts_view(v@)),
        Outcome::Error(f) => SOutcome::Error(f),
        Outcome::Incomplete(n) => SOutcome::Incomplete(n as int),
    }
}

/// The model of the outcome of a list of `elseif` branches.
pub open spec fn else_ifs_outcome(o: Outcome<Vec<(Expr, Vec<Statement>)>>) -> SOutcome<
    Seq<(SpecExpr, Seq<SpecStatement>)>,
> {
    match o {
        Outcome::Done(q, v) => SOutcome::Done(q as int, else_ifs_view(v@)),
        Outcome::Error(f) => SOutcome::Error(f),
        Outcome::Incomplete(n) => SOutcome::Incomplete(n as int),
    }
}

/// The model of the outcome of one `elseif` branch.
pub open spec fn else_if_outcome(o: Outcome<(Expr, Vec<Statement>)>) -> SOutcome<
    (SpecExpr, Seq<SpecStatement>),
> {
    match o {
        Outcome::Done(q, b) => SOutcome::Done(q as int, (expr_view(b.0), stmts_view(b.1@))),
        Outcome::Error(f) => SOutcome::Error(f),
        Outcome::Incomplete(n) => SOutcome::Incomplete(n as int),
    }
}

/// Parses statements from `i0` as `spec_stmts_from` describes.
fn statements_from(s: &[u8], i0: usize, wrapped: bool) -> (r: Outcome<Vec<Statement>>)
    requires
        i0 <= s@.len(),
        input_fits(s@),
        !spec_stmts_from(s@, i0 as int, Seq::empty(), wrapped).is_abort(),
    ensures
        stmts_outcome(r) == spec_stmts_from(s@, i0 as int, Seq::empty(), wrapped),
        r matches Outcome::Done(q, _) ==> i0 <= q <= s@.len(),
    decreases s@.len() - i0, 20int,
{
    let mut v: Vec<Statement> = Vec::new();
    let mut i = i0;
    proof {
        lemma_stmts_view_empty(v@);
    }
    loop
        invariant
            i0 <= i <= s@.len(),
            input_fits(s@),
            spec_stmts_from(s@, i as int, stmts_view(v@), wrapped) == spec_stmts_from(
                s@,
                i0 as int,
                Seq::empty(),
                wrapped,
            ),
            !spec_stmts_from(s@, i as int, stmts_view(v@), wrapped).is_abort(),
        decreases s@.len() - i,
    {
        if i == s.len() {
            return Outcome::Done(i, v);
        }
        proof {
            lemma_sp(s@, i as int);
        }
        let item = if wrapped {
            let a = skip_space(s, i);
            match statement(s, a) {
                Outcome::Done(q, st) => {
                    proof {
                        lemma_sp(s@, q as int);
                    }
                    Outcome::Done(skip_space(s, q), st)
                },
                o => o,
            }
        } else {
            statement(s, i)
        };
        match item {
            Outcome::Done(q, st) => {
                proof {
                    lemma_stmts_view_push(v@, st);
                }
                v.push(st);
                i = q;
            },
            Outcome::Error(_) => return Outcome::Done(i, v),
            Outcome::Incomplete(n) => return Outcome::Incomplete(n),
        }
    }
}

/// Parses a list of zero or more statements at `p`.
pub fn statement_list(s: &[u8], p: usize) -> (r: Outcome<Vec<Statement>>)
    requires
        p <= s@.len(),
        input_fits(s@),
        !spec_stmts_from(s@, p as int, Seq::empty(), false).is_abort(),
    ensures
        stmts_outcome(r) == spec_stmts_from(s@, p as int, Seq::empty(), false),
        r matches Outcome::Done(q, _) ==> p <= q <= s@.len(),
{
    statements_from(s, p, false)
}

/// Parses a statement at `p`.
pub fn statement(s: &[u8], p: usize) -> (r: Outcome<Statement>)
    requires
        p <= s@.len(),
        input_fits(s@),
        !spec_statement(s@, p as int).is_abort(),
    ensures
        outcome_view(r) == spec_statement(s@, p as int),
        r matches Outcome::Done(q, _) ==> p < q <= s@.len(),
    decreases s@.len() - p, 19int,
{
    match declaration(s, p) {
        Outcome::Done(q, d) => Outcome::Done(q, Statement::Declaration(d)),
        Outcome::Error(_) => match macro_call(s, p) {
            Outcome::Error(_) => match if_else(s, p) {
                Outcome::Error(_) => Outcome::Error(Failure::Position(ErrorKind::Alt, p)),
                o => o,
            },
            o => o,
        },
        o => fail_as(o),
    }
}

/// Parses a declaration at `p`.
pub fn declaration(s: &[u8], p: usize) -> (r: Outcome<Declaration>)
    requires
        p <= s@.len(),
        input_fits(s@),
        !spec_declaration(s@, p as int).is_abort(),
    ensures
        outcome_view(r) == spec_declaration(s@, p as int),
        r matches Outcome::Done(q, _) ==> p < q <= s@.len(),
    decreases s@.len() - p, 18int,
{
    match block_declaration(s, p) {
        Outcome::Error(_) => match macro_declaration(s, p) {
            Outcome::Error(_) => match symbol_declaration(s, p) {
                Outcome::Error(_) => Outcome::Error(Failure::Position(ErrorKind::Alt, p)),
                o => o,
            },
            o => o,
        },
        o => o,
    }
}

} // verus!

verus! {

/// Parses a container declaration at `p`.
pub fn block_declaration(s: &[u8], p: usize) -> (r: Outcome<Declaration>)
    requires
        p <= s@.len(),
        input_fits(s@),
        !spec_block_declaration(s@, p as int).is_abort(),
    ensures
        outcome_view(r) == spec_block_declaration(s@, p as int),
        r matches Outcome::Done(q, _) ==> p < q <= s@.len(),
    decreases s@.len() - p, 17int,
{
    proof {
        lemma_sp(s@, p as int);
    }
    let a = skip_space(s, p);
    let kw = keyword_bytes(StatementKeyword::Abstract);
    let (q0, is_abstract) = match tag_at(s, a, kw.as_slice()) {
        Outcome::Done(q, _) => (q, true),
        Outcome::Error(_) => (a, false),
        Outcome::Incomplete(n) => return Outcome::Incomplete(n),
    };
    proof {
        lemma_sp(s@, q0 as int);
    }
    let b = skip_space(s, q0);
    let (q1, qualifier) = match type_specifier::<BlockType>(s, b) {
        Outcome::Done(q, t) => (q, t),
        o => return fail_as(o),
    };
    proof {
        lemma_sp(s@, q1 as int);
    }
    let c = skip_space(s, q1);
    let (q2, name) = match identifier_at(s, c) {
        Outcome::Done(q, n) => (q, n),
        o => return fail_as(o),
    };
    proof {
        lemma_sp(s@, q2 as int);
    }
    let d = skip_space(s, q2);
    let q3 = match char_at(s, d, 0x7b) {
        Outcome::Done(q, _) => q,
        o => return fail_as(o),
    };
    proof {
        lemma_sp(s@, q3 as int);
    }
    let e = skip_space(s, q3);
    let (q4, statements) = match statements_from(s, e, true) {
        Outcome::Done(q, v) => (q, v),
        o => return fail_as(o),
    };
    proof {
        lemma_sp(s@, q4 as int);
    }
    let f = skip_space(s, q4);
    let q5 = match char_at(s, f, 0x7d) {
        Outcome::Done(q, _) => q,
        o => return fail_as(o),
    };
    proof {
        lemma_sp(s@, q5 as int);
    }
    Outcome::Done(
        skip_space(s, q5),
        Declaration::Block { is_abstract, qualifier, name, statements, extends: None },
    )
}

} // verus!

verus! {

/// Parses a macro definition at `p`.
pub fn macro_declaration(s: &[u8], p: usize) -> (r: Outcome<Declaration>)
    requires
        p <= s@.len(),
        input_fits(s@),
        !spec_macro_declaration(s@, p as int).is_abort(),
    ensures
        outcome_view(r) == spec_macro_declaration(s@, p as int),
        r matches Outcome::Done(q, _) ==> p < q <= s@.len(),
    decreases s@.len() - p, 17int,
{
    proof {
        lemma_sp(s@, p as int);
    }
    let a = skip_space(s, p);
    let kw = keyword_bytes(StatementKeyword::Macro);
    let q1 = match tag_at(s, a, kw.as_slice()) {
        Outcome::Done(q, _) => q,
        o => return fail_as(o),
    };
    proof {
        lemma_sp(s@, q1 as int);
    }
    let b = skip_space(s, q1);
    let (q2, name) = match identifier_at(s, b) {
        Outcome::Done(q, n) => (q, n),
        o => return fail_as(o),
    };
    proof {
        lemma_sp(s@, q2 as int);
    }
    let c = skip_space(s, q2);
    let q3 = match tag1_at(s, c, 0x28) {
        Outcome::Done(q, _) => q,
        o => return fail_as(o),
    };
    proof {
        lemma_sp(s@, q3 as int);
    }
    let d = skip_space(s, q3);
    let (q4, parameters) = match macro_param_list(s, d) {
        Outcome::Done(q, v) => (q, v),
        o => return fail_as(o),
    };
    proof {
        lemma_sp(s@, q4 as int);
    }
    let e0 = skip_space(s, q4);
    let q5 = match tag1_at(s, e0, 0x29) {
        Outcome::Done(q, _) => q,
        o => return fail_as(o),
    };
    proof {
        lemma_sp(s@, q5 as int);
    }
    let f0 = skip_space(s, q5);
    let q6 = match tag1_at(s, f0, 0x7b) {
        Outcome::Done(q, _) => q,
        o => return fail_as(o),
    };
    proof {
        lemma_sp(s@, q6 as int);
    }
    let e = skip_space(s, q6);
    let (q7, statements) = match statements_from(s, e, false) {
        Outcome::Done(q, v) => (q, v),
        o => return fail_as(o),
    };
    proof {
        lemma_sp(s@, q7 as int);
    }
    let g = skip_space(s, q7);
    let q8 = match tag1_at(s, g, 0x7d) {
        Outcome::Done(q, _) => q,
        o => return fail_as(o),
    };
    proof {
        lemma_sp(s@, q8 as int);
        assert(crate::ast::params_view(parameters@) =~= parameters.deep_view());
    }
    Outcome::Done(skip_space(s, q8), Declaration::Macro { name, parameters, statements })
}

/// Parses a conditional at `p`.
pub fn if_else(s: &[u8], p: usize) -> (r: Outcome<Statement>)
    requires
        p <= s@.len(),
        input_fits(s@),
        !spec_if_else(s@, p as int).is_abort(),
    ensures
        outcome_view(r) == spec_if_else(s@, p as int),
        r matches Outcome::Done(q, _) ==> p < q <= s@.len(),
    decreases s@.len() - p, 17int,
{
    proof {
        lemma_sp(s@, p as int);
    }
    let a = skip_space(s, p);
    let kw = keyword_bytes(StatementKeyword::If);
    let q1 = match tag_at(s, a, kw.as_slice()) {
        Outcome::Done(q, _) => q,
        o => return fail_as(o),
    };
    proof {
        lemma_sp(s@, q1 as int);
    }
    let b = skip_space(s, q1);
    let (q2, condition) = match expr(s, b) {
        Outcome::Done(q, e) => (q, e),
        o => return fail_as(o),
    };
    proof {
        lemma_sp(s@, q2 as int);
    }
    let c = skip_space(s, q2);
    let q3 = match char_at(s, c, 0x7b) {
        Outcome::Done(q, _) => q,
        o => return fail_as(o),
    };
    proof {
        lemma_sp(s@, q3 as int);
    }
    let e = skip_space(s, q3);
    let (q4, then_block) = match statements_from(s, e, false) {
        Outcome::Done(q, v) => (q, v),
        o => return fail_as(o),
    };
    proof {
        lemma_sp(s@, q4 as int);
    }
    let e1 = skip_space(s, q4);
    let q5 = match char_at(s, e1, 0x7d) {
        Outcome::Done(q, _) => q,
        o => return fail_as(o),
    };
    proof {
        lemma_sp(s@, q5 as int);
    }
    let f = skip_space(s, q5);
    let (q6, else_ifs) = match else_ifs_from(s, f) {
        Outcome::Done(q, v) => (q, v),
        o => return fail_as(o),
    };
    proof {
        lemma_sp(s@, q6 as int);
    }
    let g = skip_space(s, q6);
    let kw_else = keyword_bytes(StatementKeyword::Else);
    let (end, else_block) = match tag_at(s, g, kw_else.as_slice()) {
        Outcome::Done(h, _) => match char_at(s, h, 0x7b) {
            Outcome::Done(c2, _) => match statements_from(s, c2, false) {
                Outcome::Done(q, blk) => match char_at(s, q, 0x7d) {
                    Outcome::Done(r, _) => (r, Some(blk)),
                    _ => (g, None),
                },
                _ => (g, None),
            },
            _ => (g, None),
        },
        _ => (g, None),
    };
    proof {
        lemma_sp(s@, end as int);
    }
    Outcome::Done(
        skip_space(s, end),
        Statement::IfElse { condition, then_block, else_ifs, else_block },
    )
}

/// Parses the `elseif` branches from `i0` as `spec_else_ifs_from` describes.
fn else_ifs_from(s: &[u8], i0: usize) -> (r: Outcome<Vec<(Expr, Vec<Statement>)>>)
    requires
        i0 <= s@.len(),
        input_fits(s@),
        !spec_else_ifs_from(s@, i0 as int, Seq::empty()).is_abort(),
    ensures
        else_ifs_outcome(r) == spec_else_ifs_from(s@, i0 as int, Seq::empty()),
        r matches Outcome::Done(q, _) ==> i0 <= q <= s@.len(),
    decreases s@.len() - i0, 16int,
{
    let mut v: Vec<(Expr, Vec<Statement>)> = Vec::new();
    let mut i = i0;
    proof {
        assert(else_ifs_view(v@) =~= Seq::<(SpecExpr, Seq<SpecStatement>)>::empty());
    }
    loop
        invariant
            i0 <= i <= s@.len(),
            input_fits(s@),
            spec_else_ifs_from(s@, i as int, else_ifs_view(v@)) == spec_else_ifs_from(
                s@,
                i0 as int,
                Seq::empty(),
            ),
            !spec_else_ifs_from(s@, i as int, else_ifs_view(v@)).is_abort(),
        decreases s@.len() - i,
    {
        if i == s.len() {
            return Outcome::Done(i, v);
        }
        proof {
            lemma_sp(s@, i as int);
        }
        let a = skip_space(s, i);
        match else_if(s, a) {
            Outcome::Done(q, b) => {
                proof {
                    lemma_sp(s@, q as int);
                    lemma_else_ifs_view_push(v@, b);
                }
                let q1 = skip_space(s, q);
                v.push(b);
                i = q1;
            },
            Outcome::Error(_) => return Outcome::Done(i, v),
            Outcome::Incomplete(n) => return Outcome::Incomplete(n),
        }
    }
}

/// Parses an `elseif` branch at `p`.
pub fn else_if(s: &[u8], p: usize) -> (r: Outcome<(Expr, Vec<Statement>)>)
    requires
        p <= s@.len(),
        input_fits(s@),
        !spec_else_if(s@, p as int).is_abort(),
    ensures
        else_if_outcome(r) == spec_else_if(s@, p as int),
        r matches Outcome::Done(q, _) ==> p < q <= s@.len(),
    decreases s@.len() - p, 15int,
{
    proof {
        lemma_sp(s@, p as int);
    }
    let a = skip_space(s, p);
    let kw = keyword_bytes(StatementKeyword::ElseIf);
    let q1 = match tag_at(s, a, kw.as_slice()) {
        Outcome::Done(q, _) => q,
        o => return fail_as(o),
    };
    proof {
        lemma_sp(s@, q1 as int);
    }
    let b = skip_space(s, q1);
    let (q2, condition) = match expr(s, b) {
        Outcome::Done(q, e) => (q, e),
        o => return fail_as(o),
    };
    proof {
        lemma_sp(s@, q2 as int);
    }
    let c = skip_space(s, q2);
    let q3 = match tag1_at(s, c, 0x7b) {
        Outcome::Done(q, _) => q,
        o => return fail_as(o),
    };
    proof {
        lemma_sp(s@, q3 as int);
    }
    let e = skip_space(s, q3);
    let (q4, stmts) = match statements_from(s, e, false) {
        Outcome::Done(q, v) => (q, v),
        o => return fail_as(o),
    };
    proof {
        lemma_sp(s@, q4 as int);
    }
    let f = skip_space(s, q4);
    let q5 = match tag1_at(s, f, 0x7d) {
        Outcome::Done(q, _) => q,
        o => return fail_as(o),
    };
    proof {
        lemma_sp(s@, q5 as int);
    }
    Outcome::Done(skip_space(s, q5), (condition, stmts))
}

} // verus!

verus! {

/// Parses a symbol declaration at `p`.
pub fn symbol_declaration(s: &[u8], p: usize) -> (r: Outcome<Declaration>)
    requires
        p <= s@.len(),
        input_fits(s@),
        !spec_symbol_declaration(s@, p as int).is_abort(),
    ensures
        outcome_view(r) == spec_symbol_declaration(s@, p as int),
        r matches Outcome::Done(q, _) ==> p < q <= s@.len(),
{
    proof {
        lemma_sp(s@, p as int);
    }
    let a = skip_space(s, p);
    let (q1, qualifier) = match type_specifier::<SymbolType>(s, a) {
        Outcome::Done(q, t) => (q, t),
        o => return fail_as(o),
    };
    proof {
        lemma_sp(s@, q1 as int);
    }
    let b = skip_space(s, q1);
    let (q2, name) = match identifier_at(s, b) {
        Outcome::Done(q, n) => (q, n),
        o => return fail_as(o),
    };
    proof {
        lemma_sp(s@, q2 as int);
    }
    let c = skip_space(s, q2);
    let (r0, initializer) = match tag1_at(s, c, 0x3d) {
        Outcome::Done(d, _) => match expr(s, d) {
            Outcome::Done(r1, e) => (r1, Some(e)),
            Outcome::Error(_) => (c, None),
            o => return fail_as(o),
        },
        Outcome::Error(_) => (c, None),
        o => return fail_as(o),
    };
    proof {
        lemma_sp(s@, r0 as int);
    }
    let f = skip_space(s, r0);
    let q3 = match char_at(s, f, 0x3b) {
        Outcome::Done(q, _) => q,
        o => return fail_as(o),
    };
    proof {
        lemma_sp(s@, q3 as int);
    }
    Outcome::Done(skip_space(s, q3), Declaration::Symbol { qualifier, name, initializer })
}

/// Parses a macro parameter at `p`.
pub fn macro_param(s: &[u8], p: usize) -> (r: Outcome<MacroParameter>)
    requires
        p <= s@.len(),
        input_fits(s@),
        !spec_macro_param(s@, p as int).is_abort(),
    ensures
        outcome_view(r) == spec_macro_param(s@, p as int),
        r matches Outcome::Done(q, _) ==> p < q <= s@.len(),
{
    proof {
        lemma_sp(s@, p as int);
    }
    let a = skip_space(s, p);
    let (q1, qualifier) = match type_specifier::<SymbolType>(s, a) {
        Outcome::Done(q, t) => (q, t),
        o => return fail_as(o),
    };
    proof {
        lemma_sp(s@, q1 as int);
    }
    let b = skip_space(s, q1);
    let (q2, name) = match identifier_at(s, b) {
        Outcome::Done(q, n) => (q, n),
        o => return fail_as(o),
    };
    proof {
        lemma_sp(s@, q2 as int);
    }
    Outcome::Done(skip_space(s, q2), MacroParameter { qualifier, name })
}

/// Parses `,` and a macro parameter at `i`.
fn comma_param(s: &[u8], i: usize) -> (r: Outcome<MacroParameter>)
    requires
        i <= s@.len(),
        input_fits(s@),
        !spec_comma_param(s@, i as int).is_abort(),
    ensures
        outcome_view(r) == spec_comma_param(s@, i as int),
        r matches Outcome::Done(q, _) ==> i < q <= s@.len(),
{
    proof {
        lemma_sp(s@, i as int);
    }
    let a = skip_space(s, i);
    match char_at(s, a, 0x2c) {
        Outcome::Done(c, _) => {
            proof {
                lemma_sp(s@, c as int);
            }
            let b = skip_space(s, c);
            macro_param(s, b)
        },
        o => fail_as(o),
    }
}

/// Parses a parameter list of one or more parameters at `p`.
pub fn macro_param_list(s: &[u8], p: usize) -> (r: Outcome<Vec<MacroParameter>>)
    requires
        p <= s@.len(),
        input_fits(s@),
        !spec_macro_param_list(s@, p as int).is_abort(),
    ensures
        outcome_view(r) == spec_macro_param_list(s@, p as int),
        r matches Outcome::Done(q, _) ==> p < q <= s@.len(),
{
    proof {
        lemma_sp(s@, p as int);
    }
    let a = skip_space(s, p);
    let (q1, first) = match macro_param(s, a) {
        Outcome::Done(q, m) => (q, m),
        o => return fail_as(o),
    };
    let ghost first_view = first.deep_view();
    let mut v: Vec<MacroParameter> = Vec::new();
    v.push(first);
    assert(v.deep_view() =~= seq![first_view]);
    let mut i = q1;
    loop
        invariant_except_break
            p < i <= s@.len(),
            input_fits(s@),
            spec_macro_param(s@, sp(s@, p as int)) == SOutcome::Done(q1 as int, first_view),
            spec_params_from(s@, i as int, v.deep_view()) == spec_params_from(
                s@,
                q1 as int,
                seq![first_view],
            ),
            !spec_params_from(s@, i as int, v.deep_view()).is_abort(),
        ensures
            p < i <= s@.len(),
            spec_params_from(s@, q1 as int, seq![first_view]) == SOutcome::Done(
                i as int,
                v.deep_view(),
            ),
        decreases s@.len() - i,
    {
        if i == s.len() {
            break;
        }
        match comma_param(s, i) {
            Outcome::Done(q, m) => {
                let ghost before = v.deep_view();
                let ghost mv = m.deep_view();
                v.push(m);
                assert(v.deep_view() =~= before.push(mv));
                i = q;
            },
            Outcome::Error(_) => break,
            Outcome::Incomplete(n) => {
                assert(spec_params_from(s@, q1 as int, seq![first_view])
                    == SOutcome::<Seq<SpecMacroParameter>>::Incomplete(n as int));
                return Outcome::Incomplete(n);
            },
        }
    }
    proof {
        lemma_sp(s@, i as int);
    }
    Outcome::Done(skip_space(s, i), v)
}

/// Parses `,` and an argument at `i`.
fn comma_arg(s: &[u8], i: usize) -> (r: Outcome<Expr>)
    requires
        i <= s@.len(),
        input_fits(s@),
        !spec_comma_arg(s@, i as int).is_abort(),
    ensures
        outcome_view(r) == spec_comma_arg(s@, i as int),
        r matches Outcome::Done(q, _) ==> i < q <= s@.len(),
{
    proof {
        lemma_sp(s@, i as int);
    }
    let a = skip_space(s, i);
    match char_at(s, a, 0x2c) {
        Outcome::Done(c, _) => {
            proof {
                lemma_sp(s@, c as int);
            }
            let b = skip_space(s, c);
            match expr(s, b) {
                Outcome::Done(q, e) => {
                    proof {
                        lemma_sp(s@, q as int);
                    }
                    Outcome::Done(skip_space(s, q), e)
                },
                o => o,
            }
        },
        o => fail_as(o),
    }
}

/// Parses an argument list of one or more expressions at `p`.
pub fn macro_argument_list(s: &[u8], p: usize) -> (r: Outcome<Vec<Expr>>)
    requires
        p <= s@.len(),
        input_fits(s@),
        !spec_macro_argument_list(s@, p as int).is_abort(),
    ensures
        outcome_view(r) == spec_macro_argument_list(s@, p as int),
        r matches Outcome::Done(q, _) ==> p < q <= s@.len(),
{
    proof {
        lemma_sp(s@, p as int);
    }
    let a = skip_space(s, p);
    let (q0, first) = match expr(s, a) {
        Outcome::Done(q, e) => (q, e),
        o => return fail_as(o),
    };
    proof {
        lemma_sp(s@, q0 as int);
    }
    let q1 = skip_space(s, q0);
    let ghost first_view = first.deep_view();
    let mut v: Vec<Expr> = Vec::new();
    v.push(first);
    assert(v.deep_view() =~= seq![first_view]);
    let mut i = q1;
    loop
        invariant_except_break
            p < i <= s@.len(),
            input_fits(s@),
            trail(s@, spec_expr(s@, sp(s@, p as int))) == SOutcome::Done(q1 as int, first_view),
            spec_args_from(s@, i as int, v.deep_view()) == spec_args_from(
                s@,
                q1 as int,
                seq![first_view],
            ),
            !spec_args_from(s@, i as int, v.deep_view()).is_abort(),
        ensures
            p < i <= s@.len(),
            spec_args_from(s@, q1 as int, seq![first_view]) == SOutcome::Done(
                i as int,
                v.deep_view(),
            ),
        decreases s@.len() - i,
    {
        if i == s.len() {
            break;
        }
        match comma_arg(s, i) {
            Outcome::Done(q, e) => {
                let ghost before = v.deep_view();
                let ghost ev = e.deep_view();
                v.push(e);
                assert(v.deep_view() =~= before.push(ev));
                i = q;
            },
            Outcome::Error(_) => break,
            Outcome::Incomplete(n) => {
                assert(spec_args_from(s@, q1 as int, seq![first_view])
                    == SOutcome::<Seq<SpecExpr>>::Incomplete(n as int));
                return Outcome::Incomplete(n);
            },
        }
    }
    proof {
        lemma_sp(s@, i as int);
    }
    Outcome::Done(skip_space(s, i), v)
}

/// Parses a macro call at `p`.
pub fn macro_call(s: &[u8], p: usize) -> (r: Outcome<Statement>)
    requires
        p <= s@.len(),
        input_fits(s@),
        !spec_macro_call(s@, p as int).is_abort(),
    ensures
        outcome_view(r) == spec_macro_call(s@, p as int),
        r matches Outcome::Done(q, _) ==> p < q <= s@.len(),
{
    proof {
        lemma_sp(s@, p as int);
    }
    let a = skip_space(s, p);
    let (q1, name) = match identifier_at(s, a) {
        Outcome::Done(q, n) => (q, n),
        o => return fail_as(o),
    };
    proof {
        lemma_sp(s@, q1 as int);
    }
    let b = skip_space(s, q1);
    let q2 = match tag1_at(s, b, 0x28) {
        Outcome::Done(q, _) => q,
        o => return fail_as(o),
    };
    proof {
        lemma_sp(s@, q2 as int);
    }
    let c = skip_space(s, q2);
    let (q3, args) = match macro_argument_list(s, c) {
        Outcome::Done(q, v) => (q, v),
        o => return fail_as(o),
    };
    proof {
        lemma_sp(s@, q3 as int);
    }
    let d = skip_space(s, q3);
    let q4 = match tag1_at(s, d, 0x29) {
        Outcome::Done(q, _) => q,
        o => return fail_as(o),
    };
    proof {
        lemma_sp(s@, q4 as int);
    }
    let e = skip_space(s, q4);
    let q5 = match tag1_at(s, e, 0x3b) {
        Outcome::Done(q, _) => q,
        o => return fail_as(o),
    };
    proof {
        lemma_sp(s@, q5 as int);
        assert(crate::ast::exprs_view(args@) =~= args.deep_view());
    }
    Outcome::Done(skip_space(s, q5), Statement::MacroCall(name, args))
}

} // verus!

verus! {

/// One step of a list of statements from `i`, written out.
pub proof fn lemma_stmts_from_unfold(
    s: Seq<u8>,
    i: int,
    acc: Seq<SpecStatement>,
    wrapped: bool,
)
    requires
        0 <= i < s.len(),
    ensures
        ({
            let item = if wrapped {
                trail(s, spec_statement(s, sp(s, i)))
            } else {
                spec_statement(s, i)
            };
            spec_stmts_from(s, i, acc, wrapped) == match item {
                SOutcome::Error(_) => SOutcome::Done(i, acc),
                SOutcome::Incomplete(n) => SOutcome::Incomplete(n),
                SOutcome::Abort => SOutcome::Abort,
                SOutcome::Done(q, o) => if i < q <= s.len() {
                    spec_stmts_from(s, q, acc.push(o), wrapped)
                } else {
                    SOutcome::Error(Failure::Position(ErrorKind::Many0, i as usize))
                },
            }
        }),
{
}

} // verus!

verus! {

/// The condition of a conditional `if c { S }` is the expression read
/// after `if`, and its then-branch is the list of statements read from
/// just after the `{` that follows the condition: exactly what the
/// expression and statement list parsers give there.
pub proof fn lemma_if_then_block(s: Seq<u8>, p: int)
    ensures
        spec_if_else(s, p) matches SOutcome::Done(q, SpecStatement::IfElse { condition, then_block, .. })
            ==> {
            let a = sp(s, p);
            let c = sp(s, spec_expr(s, sp(s, a + 2))->Done_0);
            &&& spec_expr(s, sp(s, a + 2)) matches SOutcome::Done(_, cond) && cond == condition
            &&& s[c] == 0x7b
            &&& spec_stmts_from(s, sp(s, c + 1), Seq::empty(), false) matches SOutcome::Done(
                r,
                stmts,
            ) && stmts == then_block && s[sp(s, r)] == 0x7d
        },
{
}

} // verus!
