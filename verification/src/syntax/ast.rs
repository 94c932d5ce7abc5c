//! Kinds of the nodes and leaves of syntax trees, and the keywords that
//! leaves may be remapped to.

use vstd::prelude::*;
use crate::syntax::token::TokenType;
use crate::text::str_eq;

verus! {

/// The keywords of the language.
#[allow(non_camel_case_types)]
#[derive(Debug, Copy, Clone, Eq, PartialEq, Structural)]
pub enum Keyword {
    /// The `type` statement keyword, which declares a new named security type.
    TYPE,
    /// The `type_attribute` statement keyword, which declares a new bitset of types.
    TYPE_ATTRIBUTE,
    /// The `role` statement keyword, which declares a new role for role-based access control.
    ROLE,
    /// The `role_attribute` statement keyword, which declares a new bitset of roles.
    ROLE_ATTRIBUTE,
    /// The `user` statement keyword, which declares a new security identity.
    USER,
    /// The `user_attribute` statement keyword, which declares a new bitset of users
    USER_ATTRIBUTE,
    /// The `optional` statement keyword, which declares a new optional container
    OPTIONAL,
    /// The `sensitivity` statement keyword, which declares a new multi-level security sensitivity level
    SENSITIVITY,
    /// The `category` statement keyword, which declares a new multi-level security compartment
    CATEGORY,
    /// The `level_range` statement keyword, which declares a new low and high pair of sensitivities and category sets
    LEVEL_RANGE,
    /// The `block` statement keyword, which declares a new namespace container
    BLOCK,
    /// The `in` statement keyword, which extends an existing namespace container
    IN,
    /// The `abstract` modifier, used to mark a `block` as abstract
    ABSTRACT,
    /// The `extends` keyword, used to begin an inheritance list
    EXTENDS,
    /// The `allow` statement keyword, which represents an allowed type-enforcement rule
    ALLOW,
    /// The `audit_allow` statement keyword, which represents a type-enforcement rule that logs when allowed
    AUDIT_ALLOW,
    /// The `never_allow` statement keyword, which represents a build time type-enforcement check on `allow` rules
    NEVER_ALLOW,
    /// The `dont_audit` statement keyword, which represents a type-enforcement rule that prevents logging when denied
    DONT_AUDIT,
    /// The `macro` statement keyword, which declares a new named macro in the current namespace
    MACRO,
}

/// The spelling of a keyword.
pub open spec fn keyword_text(k: Keyword) -> Seq<char> {
    match k {
        Keyword::TYPE => "type"@,
        Keyword::TYPE_ATTRIBUTE => "type_attribute"@,
        Keyword::ROLE => "role"@,
        Keyword::ROLE_ATTRIBUTE => "role_attribute"@,
        Keyword::USER => "user"@,
        Keyword::USER_ATTRIBUTE => "user_attribute"@,
        Keyword::OPTIONAL => "optional"@,
        Keyword::SENSITIVITY => "sensitivity"@,
        Keyword::CATEGORY => "category"@,
        Keyword::LEVEL_RANGE => "level_range"@,
        Keyword::BLOCK => "block"@,
        Keyword::IN => "in"@,
        Keyword::ABSTRACT => "abstract"@,
        Keyword::EXTENDS => "extends"@,
        Keyword::ALLOW => "allow"@,
        Keyword::AUDIT_ALLOW => "audit_allow"@,
        Keyword::NEVER_ALLOW => "never_allow"@,
        Keyword::DONT_AUDIT => "dont_audit"@,
        Keyword::MACRO => "macro"@,
    }
}

/// The keyword spelled `value`, if any.
pub open spec fn keyword_named(value: Seq<char>) -> Option<Keyword> {
    if value == "type"@ {
        Some(Keyword::TYPE)
    } else if value == "type_attribute"@ {
        Some(Keyword::TYPE_ATTRIBUTE)
    } else if value == "role"@ {
        Some(Keyword::ROLE)
    } else if value == "role_attribute"@ {
        Some(Keyword::ROLE_ATTRIBUTE)
    } else if value == "user"@ {
        Some(Keyword::USER)
    } else if value == "user_attribute"@ {
        Some(Keyword::USER_ATTRIBUTE)
    } else if value == "optional"@ {
        Some(Keyword::OPTIONAL)
    } else if value == "sensitivity"@ {
        Some(Keyword::SENSITIVITY)
    } else if value == "category"@ {
        Some(Keyword::CATEGORY)
    } else if value == "level_range"@ {
        Some(Keyword::LEVEL_RANGE)
    } else if value == "block"@ {
        Some(Keyword::BLOCK)
    } else if value == "in"@ {
        Some(Keyword::IN)
    } else if value == "abstract"@ {
        Some(Keyword::ABSTRACT)
    } else if value == "extends"@ {
        Some(Keyword::EXTENDS)
    } else if value == "allow"@ {
        Some(Keyword::ALLOW)
    } else if value == "audit_allow"@ {
        Some(Keyword::AUDIT_ALLOW)
    } else if value == "never_allow"@ {
        Some(Keyword::NEVER_ALLOW)
    } else if value == "dont_audit"@ {
        Some(Keyword::DONT_AUDIT)
    } else if value == "macro"@ {
        Some(Keyword::MACRO)
    } else {
        None
    }
}

impl Keyword {
    /// The keyword spelled `value`, if any.
    pub fn from_str(value: &str) -> (r: Option<Self>)
        ensures
            r == keyword_named(value@),
    {
        if str_eq(value, "type") {
            Some(Keyword::TYPE)
        } else if str_eq(value, "type_attribute") {
            Some(Keyword::TYPE_ATTRIBUTE)
        } else if str_eq(value, "role") {
            Some(Keyword::ROLE)
        } else if str_eq(value, "role_attribute") {
            Some(Keyword::ROLE_ATTRIBUTE)
        } else if str_eq(value, "user") {
            Some(Keyword::USER)
        } else if str_eq(value, "user_attribute") {
            Some(Keyword::USER_ATTRIBUTE)
        } else if str_eq(value, "optional") {
            Some(Keyword::OPTIONAL)
        } else if str_eq(value, "sensitivity") {
            Some(Keyword::SENSITIVITY)
        } else if str_eq(value, "category") {
            Some(Keyword::CATEGORY)
        } else if str_eq(value, "level_range") {
            Some(Keyword::LEVEL_RANGE)
        } else if str_eq(value, "block") {
            Some(Keyword::BLOCK)
        } else if str_eq(value, "in") {
            Some(Keyword::IN)
        } else if str_eq(value, "abstract") {
            Some(Keyword::ABSTRACT)
        } else if str_eq(value, "extends") {
            Some(Keyword::EXTENDS)
        } else if str_eq(value, "allow") {
            Some(Keyword::ALLOW)
        } else if str_eq(value, "audit_allow") {
            Some(Keyword::AUDIT_ALLOW)
        } else if str_eq(value, "never_allow") {
            Some(Keyword::NEVER_ALLOW)
        } else if str_eq(value, "dont_audit") {
            Some(Keyword::DONT_AUDIT)
        } else if str_eq(value, "macro") {
            Some(Keyword::MACRO)
        } else {
            None
        }
    }

    /// Whether this keyword declares a variable: a type, role, user, a
    /// bitset of them, or a sensitivity, category or level range.
    pub fn is_var_type(&self) -> (r: bool)
        ensures
            r == (*self == Keyword::TYPE || *self == Keyword::TYPE_ATTRIBUTE || *self
                == Keyword::ROLE || *self == Keyword::ROLE_ATTRIBUTE || *self == Keyword::USER
                || *self == Keyword::USER_ATTRIBUTE || *self == Keyword::SENSITIVITY || *self
                == Keyword::CATEGORY || *self == Keyword::LEVEL_RANGE),
    {
        match self {
            Keyword::TYPE
            | Keyword::TYPE_ATTRIBUTE
            | Keyword::ROLE
            | Keyword::ROLE_ATTRIBUTE
            | Keyword::USER
            | Keyword::USER_ATTRIBUTE
            | Keyword::SENSITIVITY
            | Keyword::CATEGORY
            | Keyword::LEVEL_RANGE => true,
            _ => false,
        }
    }
}

/// The kinds of the nodes and leaves of a syntax tree.
#[derive(Debug, Clone, Copy, Eq, PartialEq, Structural)]
pub enum SyntaxKind {
    /// Syntax-tree leaf for an individual token and its optional trivia (e.g. doc comments, whitespace).
    Token(TokenType),
    /// Syntax-tree leaf for an individual token remapped to a keyword type.
    Keyword(Keyword),
    /// Syntax-tree marker for a parser error within a syntax tree.
    ParseError,
    /// Syntax-tree marker for the a list of statements within `{ ... }`.
    Block,
    /// Syntax-tree marker for a named container.
    Container,
    /// Syntax-tree marker for a list of parent-containers in a container declaration.
    ExtendsList,
    /// Syntax-tree marker for a macro definition and its body.
    MacroDef,
    /// Syntax-tree marker for a macro call statement.
    MacroCall,
    /// Syntax-tree marker for the argument list of a macro call.
    MacroArgumentList,
    /// Syntax-tree marker for individual arguments within an argument list.
    MacroArgumentListItem,
    /// Syntax-tree marker for the parameter list of within the parenthesis of a macro definition.
    MacroParamList,
    /// Syntax-tree marker for an individual item in a macro definition's parameter list.
    MacroParamListItem,
    /// Syntax-tree marker for a variable declaration.
    Variable,
    /// A binary operator expression.
    BinaryExpr,
    /// A literal expression.
    LiteralExpr,
    /// Syntax-tree marker for a sub-list expression that takes a subset of children from a named list.
    ListExpr,
    /// Syntax-tree marker for a reference expression that points to a path.
    PathExpr,
    /// A parenthesised expression.
    ParenExpr,
    /// Syntax-tree marker for a unary expression with a token preceding another expression.
    PrefixExpr,
    /// Syntax-tree marker for a conditional (if, else-if, else) statement.
    ConditionalStmt,
    /// Syntax-tree marker for the top level node in a files AST.
    SourceFile,
}

impl Keyword {
    /// The syntax kind of a leaf remapped to this keyword.
    pub fn into_kind(self) -> (r: SyntaxKind)
        ensures
            r == SyntaxKind::Keyword(self),
    {
        SyntaxKind::Keyword(self)
    }
}

impl TokenType {
    /// The syntax kind of a leaf of this token type.
    pub fn into_kind(self) -> (r: SyntaxKind)
        ensures
            r == SyntaxKind::Token(self),
    {
        SyntaxKind::Token(self)
    }
}

} // verus!

verus! {

/// Every keyword is read back from its spelling, and a spelling that names
/// a keyword is that keyword's spelling.
pub proof fn lemma_keyword_round_trip(k: Keyword, value: Seq<char>)
    ensures
        keyword_named(keyword_text(k)) == Some(k),
        keyword_named(value) matches Some(k2) ==> keyword_text(k2) == value,
{
    reveal_strlit("type");
    reveal_strlit("type_attribute");
    reveal_strlit("role");
    reveal_strlit("role_attribute");
    reveal_strlit("user");
    reveal_strlit("user_attribute");
    reveal_strlit("optional");
    reveal_strlit("sensitivity");
    reveal_strlit("category");
    reveal_strlit("level_range");
    reveal_strlit("block");
    reveal_strlit("in");
    reveal_strlit("abstract");
    reveal_strlit("extends");
    reveal_strlit("allow");
    reveal_strlit("audit_allow");
    reveal_strlit("never_allow");
    reveal_strlit("dont_audit");
    reveal_strlit("macro");
    assert("type"@[0] != "role"@[0]);
    assert("type"@[0] != "user"@[0]);
    assert("type_attribute"@[0] != "role_attribute"@[0]);
    assert("type_attribute"@[0] != "user_attribute"@[0]);
    assert("role"@[0] != "user"@[0]);
    assert("role_attribute"@[0] != "user_attribute"@[0]);
    assert("optional"@[0] != "category"@[0]);
    assert("optional"@[0] != "abstract"@[0]);
    assert("sensitivity"@[0] != "level_range"@[0]);
    assert("sensitivity"@[0] != "audit_allow"@[0]);
    assert("sensitivity"@[0] != "never_allow"@[0]);
    assert("category"@[0] != "abstract"@[0]);
    assert("level_range"@[0] != "audit_allow"@[0]);
    assert("level_range"@[0] != "never_allow"@[0]);
    assert("block"@[0] != "allow"@[0]);
    assert("block"@[0] != "macro"@[0]);
    assert("allow"@[0] != "macro"@[0]);
    assert("audit_allow"@[0] != "never_allow"@[0]);
    assert("type"@.len() == 4);
    assert("type_attribute"@.len() == 14);
    assert("role"@.len() == 4);
    assert("role_attribute"@.len() == 14);
    assert("user"@.len() == 4);
    assert("user_attribute"@.len() == 14);
    assert("optional"@.len() == 8);
    assert("sensitivity"@.len() == 11);
    assert("category"@.len() == 8);
    assert("level_range"@.len() == 11);
    assert("block"@.len() == 5);
    assert("in"@.len() == 2);
    assert("abstract"@.len() == 8);
    assert("extends"@.len() == 7);
    assert("allow"@.len() == 5);
    assert("audit_allow"@.len() == 11);
    assert("never_allow"@.len() == 11);
    assert("dont_audit"@.len() == 10);
    assert("macro"@.len() == 5);
    match k {
        Keyword::TYPE => {},
        Keyword::TYPE_ATTRIBUTE => {},
        Keyword::ROLE => {},
        Keyword::ROLE_ATTRIBUTE => {},
        Keyword::USER => {},
        Keyword::USER_ATTRIBUTE => {},
        Keyword::OPTIONAL => {},
        Keyword::SENSITIVITY => {},
        Keyword::CATEGORY => {},
        Keyword::LEVEL_RANGE => {},
        Keyword::BLOCK => {},
        Keyword::IN => {},
        Keyword::ABSTRACT => {},
        Keyword::EXTENDS => {},
        Keyword::ALLOW => {},
        Keyword::AUDIT_ALLOW => {},
        Keyword::NEVER_ALLOW => {},
        Keyword::DONT_AUDIT => {},
        Keyword::MACRO => {},
    }
}

} // verus!
