//! The kinds of statements, as told by the keyword that begins them.

use vstd::prelude::*;
use crate::ast::SymbolType;
use crate::syntax::keywords::{ABSTRACT, BLOCK, CONTEXT, IN, MACRO, OPTIONAL, ROLE, TYPE, TYPE_ATTRIBUTE};
use crate::text::str_eq;

verus! {

/// The kinds of expression that may stand in a position.
#[derive(Clone, Copy, Debug, PartialEq, Eq, Structural)]
pub enum ExprContext {
    Context,
    Type,
    Role,
    User,
    Category,
    Class,
    Conditional,
    Any,
}

/// Whether a symbol declaration takes an initializer, and of which kind.
#[derive(Debug, PartialEq, Eq, Structural)]
pub enum InitializerKind {
    Invalid,
    Required(ExprContext),
    Optional(ExprContext),
}

/// The kinds of statements.
#[derive(Debug, PartialEq, Eq, Structural)]
pub enum StatementType {
    Call,
    Conditional,
    ContainerDeclaration,
    MacroDeclaration,
    SymbolDeclaration(SymbolType, InitializerKind),
}

/// The kind of statement that the keyword `kw` begins, if any.
pub open spec fn statement_type_of(kw: Seq<char>) -> Option<StatementType> {
    if kw == TYPE_ATTRIBUTE@ {
        Some(
            StatementType::SymbolDeclaration(
                SymbolType::TypeAttribute,
                InitializerKind::Optional(ExprContext::Type),
            ),
        )
    } else if kw == TYPE@ {
        Some(StatementType::SymbolDeclaration(SymbolType::Type, InitializerKind::Invalid))
    } else if kw == ROLE@ {
        Some(StatementType::SymbolDeclaration(SymbolType::Role, InitializerKind::Invalid))
    } else if kw == CONTEXT@ {
        Some(
            StatementType::SymbolDeclaration(
                SymbolType::Context,
                InitializerKind::Required(ExprContext::Context),
            ),
        )
    } else if kw == ABSTRACT@ || kw == BLOCK@ || kw == OPTIONAL@ || kw == IN@ {
        Some(StatementType::ContainerDeclaration)
    } else if kw == MACRO@ {
        Some(StatementType::MacroDeclaration)
    } else {
        None
    }
}

impl StatementType {
    /// The kind of statement that the keyword `kw` begins, if any.
    pub fn from_keyword(kw: &str) -> (r: Option<StatementType>)
        ensures
            r == statement_type_of(kw@),
    {
        if str_eq(kw, TYPE_ATTRIBUTE) {
            Some(
                StatementType::SymbolDeclaration(
                    SymbolType::TypeAttribute,
                    InitializerKind::Optional(ExprContext::Type),
                ),
            )
        } else if str_eq(kw, TYPE) {
            Some(StatementType::SymbolDeclaration(SymbolType::Type, InitializerKind::Invalid))
        } else if str_eq(kw, ROLE) {
            Some(StatementType::SymbolDeclaration(SymbolType::Role, InitializerKind::Invalid))
        } else if str_eq(kw, CONTEXT) {
            Some(
                StatementType::SymbolDeclaration(
                    SymbolType::Context,
                    InitializerKind::Required(ExprContext::Context),
                ),
            )
        } else if str_eq(kw, ABSTRACT) || str_eq(kw, BLOCK) || str_eq(kw, OPTIONAL) || str_eq(
            kw,
            IN,
        ) {
            Some(StatementType::ContainerDeclaration)
        } else if str_eq(kw, MACRO) {
            Some(StatementType::MacroDeclaration)
        } else {
            None
        }
    }

    /// Whether statements of this kind end with a block rather than `;`.
    pub fn is_block(&self) -> (r: bool)
        ensures
            r == (*self is ContainerDeclaration || *self is MacroDeclaration
                || *self is Conditional),
    {
        match *self {
            StatementType::ContainerDeclaration
            | StatementType::MacroDeclaration
            | StatementType::Conditional => true,
            _ => false,
        }
    }

    /// Whether statements of this kind declare something.
    pub fn is_declaration(&self) -> (r: bool)
        ensures
            r == (*self is ContainerDeclaration || *self is MacroDeclaration
                || *self is SymbolDeclaration),
    {
        match *self {
            StatementType::ContainerDeclaration
            | StatementType::MacroDeclaration
            | StatementType::SymbolDeclaration(..) => true,
            _ => false,
        }
    }
}

} // verus!
