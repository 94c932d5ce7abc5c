//! The keywords of the language.

use vstd::prelude::*;
use crate::text::str_eq;

verus! {

/// The `type` statement keyword, which declares a new named security type.
pub const TYPE: &'static str = "type";

/// The `type_attribute` statement keyword, which declares a new bitset of types.
pub const TYPE_ATTRIBUTE: &'static str = "type_attribute";

/// The `role` statement keyword, which declares a new role for role-based access control.
pub const ROLE: &'static str = "role";

/// The `role_attribute` statement keyword, which declares a new bitset of roles.
pub const ROLE_ATTRIBUTE: &'static str = "role_attribute";

/// The `user` statement keyword, which declares a new security identity.
pub const USER: &'static str = "user";

/// The `user_attribute` statement keyword, which declares a new bitset of users
pub const USER_ATTRIBUTE: &'static str = "user_attribute";

/// The `optional` statement keyword, which declares a new optional container
pub const OPTIONAL: &'static str = "optional";

/// The `context` statement keyword, which declares a new set of security attributes
pub const CONTEXT: &'static str = "context";

/// The `sensitivity` statement keyword, which declares a new multi-level security sensitivity level
pub const SENSITIVITY: &'static str = "sensitivity";

/// The `category` statement keyword, which declares a new multi-level security compartment for compartmentalization
pub const CATEGORY: &'static str = "category";

/// The `level_range` statement keyword, which declares a new low and high pair of sensitivities and category sets
pub const LEVEL_RANGE: &'static str = "level_range";

/// The `block` statement keyword, which declares a new namespace container
pub const BLOCK: &'static str = "block";

/// The `in` statement keyword, which extends an existing namespace container
pub const IN: &'static str = "in";

/// The `abstract` modifier, used to mark a `block` as abstract
pub const ABSTRACT: &'static str = "abstract";

/// The `inherits_from` modifier, which names the containers a `block` inherits from
pub const INHERITS_FROM: &'static str = "inherits_from";

/// The `allow` statement keyword, which represents an allowed type-enforcement rule
pub const ALLOW: &'static str = "allow";

/// The `audit_allow` statement keyword, which represents a type-enforcement rule that logs when allowed
pub const AUDIT_ALLOW: &'static str = "audit_allow";

/// The `never_allow` statement keyword, which represents a build time type-enforcement check on `allow` rules
pub const NEVER_ALLOW: &'static str = "never_allow";

/// The `dont_audit` statement keyword, which represents a type-enforcement rule that prevents logging when denied
pub const DONT_AUDIT: &'static str = "dont_audit";

/// The `macro` statement keyword, which declares a new named macro in the current namespace
pub const MACRO: &'static str = "macro";

/// The keywords that declare a symbol of a type, role or user, or a
/// bitset of them.
pub open spec fn symbol_keyword(val: Seq<char>) -> bool {
    val == TYPE@ || val == TYPE_ATTRIBUTE@ || val == ROLE@ || val == ROLE_ATTRIBUTE@
        || val == USER@ || val == USER_ATTRIBUTE@
}

/// Whether `val` is a keyword that declares a symbol.
pub fn is_symbol_ty(val: &str) -> (r: bool)
    ensures
        r == symbol_keyword(val@),
{
    str_eq(val, TYPE) || str_eq(val, TYPE_ATTRIBUTE) || str_eq(val, ROLE) || str_eq(
        val,
        ROLE_ATTRIBUTE,
    ) || str_eq(val, USER) || str_eq(val, USER_ATTRIBUTE)
}

} // verus!
