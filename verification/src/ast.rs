//! Statement and expression trees of the CSP language.  The root of every
//! tree is a `Statement`.
//!
//! Every tree type has a mathematical counterpart (`SpecExpr`,
//! `SpecStatement`, ...) in which identifiers are character sequences; the
//! grammar's contracts are stated over those.

use vstd::prelude::*;
use crate::text::str_eq;

verus! {

/// An identifier as written in the source.
pub type Identifier = String;

/// A type specifier keyword that can be converted to and from its text.
pub trait TypeSpecifier: Sized {
    /// The specifier spelled by `value`, if it is a known one.
    spec fn spec_from(value: Seq<char>) -> Option<Self>;

    /// The CIL keyword of this specifier.
    spec fn spec_to_cil(&self) -> Seq<char>;

    /// Try and match `value` against a known type for this `TypeSpecifier`.
    fn from(value: &str) -> (r: Option<Self>)
        ensures
            r == Self::spec_from(value@),
    ;

    /// The CIL keyword of this specifier.
    fn to_cil(&self) -> (r: &'static str)
        ensures
            r@ == self.spec_to_cil(),
    ;
}

/// Types of built-in containers.
#[derive(Clone, Copy, Debug, PartialEq, Eq, Structural)]
pub enum BlockType {
    /// A declaration of a namespace block.
    Block,
    /// An optional block, that will be omitted if it does not link.
    Optional,
}

impl TypeSpecifier for BlockType {
    open spec fn spec_from(value: Seq<char>) -> Option<Self> {
        if value == "block"@ {
            Some(BlockType::Block)
        } else if value == "optional"@ {
            Some(BlockType::Optional)
        } else {
            None
        }
    }

    open spec fn spec_to_cil(&self) -> Seq<char> {
        match self {
            BlockType::Block => "block"@,
            BlockType::Optional => "optional"@,
        }
    }

    fn from(value: &str) -> (r: Option<Self>) {
        if str_eq(value, "block") {
            Some(BlockType::Block)
        } else if str_eq(value, "optional") {
            Some(BlockType::Optional)
        } else {
            None
        }
    }

    fn to_cil(&self) -> (r: &'static str) {
        match self {
            BlockType::Block => "block",
            BlockType::Optional => "optional",
        }
    }
}


/// Built-in types for types in the symbol table.
#[derive(Clone, Copy, Debug, PartialEq, Eq, Structural)]
pub enum SymbolType {
    /// A security type symbol.
    Type,
    /// A bitmap of security types.
    TypeAttribute,
    /// A security role symbol.
    Role,
    /// A bitmap of security roles.
    RoleAttribute,
    /// A security user symbol.
    User,
    /// A bitmap of security users.
    UserAttribute,
    /// A collection of security attributes.
    Context,
    /// A sensitivity level symbol.
    Sensitivity,
    /// A range of two sensitivity levels and category sets.
    LevelRange,
    /// A security category symbol.
    Category,
}

impl TypeSpecifier for SymbolType {
    open spec fn spec_from(value: Seq<char>) -> Option<Self> {
        if value == "type"@ {
            Some(SymbolType::Type)
        } else if value == "type_attribute"@ {
            Some(SymbolType::TypeAttribute)
        } else if value == "user"@ {
            Some(SymbolType::User)
        } else if value == "user_attribute"@ {
            Some(SymbolType::UserAttribute)
        } else if value == "role"@ {
            Some(SymbolType::Role)
        } else if value == "role_attribute"@ {
            Some(SymbolType::RoleAttribute)
        } else if value == "context"@ {
            Some(SymbolType::Context)
        } else {
            None
        }
    }

    open spec fn spec_to_cil(&self) -> Seq<char> {
        match self {
            SymbolType::Type => "type"@,
            SymbolType::TypeAttribute => "typeattribute"@,
            SymbolType::User => "user"@,
            SymbolType::UserAttribute => "userattribute"@,
            SymbolType::Role => "role"@,
            SymbolType::RoleAttribute => "roleattribute"@,
            SymbolType::Context => "context"@,
            SymbolType::Sensitivity => "sensitivity"@,
            SymbolType::LevelRange => "levelrange"@,
            SymbolType::Category => "category"@,
        }
    }

    fn from(value: &str) -> (r: Option<Self>) {
        if str_eq(value, "type") {
            Some(SymbolType::Type)
        } else if str_eq(value, "type_attribute") {
            Some(SymbolType::TypeAttribute)
        } else if str_eq(value, "user") {
            Some(SymbolType::User)
        } else if str_eq(value, "user_attribute") {
            Some(SymbolType::UserAttribute)
        } else if str_eq(value, "role") {
            Some(SymbolType::Role)
        } else if str_eq(value, "role_attribute") {
            Some(SymbolType::RoleAttribute)
        } else if str_eq(value, "context") {
            Some(SymbolType::Context)
        } else {
            None
        }
    }

    fn to_cil(&self) -> (r: &'static str) {
        match self {
            SymbolType::Type => "type",
            SymbolType::TypeAttribute => "typeattribute",
            SymbolType::User => "user",
            SymbolType::UserAttribute => "userattribute",
            SymbolType::Role => "role",
            SymbolType::RoleAttribute => "roleattribute",
            SymbolType::Context => "context",
            SymbolType::Sensitivity => "sensitivity",
            SymbolType::LevelRange => "levelrange",
            SymbolType::Category => "category",
        }
    }
}

/// Built-in types of security classes.
#[derive(Clone, Copy, Debug, PartialEq, Eq, Structural)]
pub enum ClassType {
    /// A security class.
    Class,
    /// A common (abstract) security class.
    Common,
}

impl TypeSpecifier for ClassType {
    open spec fn spec_from(value: Seq<char>) -> Option<Self> {
        if value == "class"@ {
            Some(ClassType::Class)
        } else if value == "common"@ {
            Some(ClassType::Common)
        } else {
            None
        }
    }

    open spec fn spec_to_cil(&self) -> Seq<char> {
        match self {
            ClassType::Class => "class"@,
            ClassType::Common => "common"@,
        }
    }

    fn from(value: &str) -> (r: Option<Self>) {
        if str_eq(value, "class") {
            Some(ClassType::Class)
        } else if str_eq(value, "common") {
            Some(ClassType::Common)
        } else {
            None
        }
    }

    fn to_cil(&self) -> (r: &'static str) {
        match self {
            ClassType::Class => "class",
            ClassType::Common => "common",
        }
    }
}

/// The kinds of access vector rules.
#[derive(Clone, Copy, Debug, PartialEq, Eq, Structural)]
pub enum AllowRuleType {
    Allow,
    NeverAllow,
    AuditAllow,
    DontAudit,
}

impl TypeSpecifier for AllowRuleType {
    open spec fn spec_from(value: Seq<char>) -> Option<Self> {
        if value == "allow"@ {
            Some(AllowRuleType::Allow)
        } else if value == "auditallow"@ {
            Some(AllowRuleType::AuditAllow)
        } else if value == "dontaudit"@ {
            Some(AllowRuleType::DontAudit)
        } else if value == "neverallow"@ {
            Some(AllowRuleType::NeverAllow)
        } else {
            None
        }
    }

    open spec fn spec_to_cil(&self) -> Seq<char> {
        match self {
            AllowRuleType::Allow => "allow"@,
            AllowRuleType::AuditAllow => "auditallow"@,
            AllowRuleType::DontAudit => "dontaudit"@,
            AllowRuleType::NeverAllow => "neverallow"@,
        }
    }

    fn from(value: &str) -> (r: Option<Self>) {
        if str_eq(value, "allow") {
            Some(AllowRuleType::Allow)
        } else if str_eq(value, "auditallow") {
            Some(AllowRuleType::AuditAllow)
        } else if str_eq(value, "dontaudit") {
            Some(AllowRuleType::DontAudit)
        } else if str_eq(value, "neverallow") {
            Some(AllowRuleType::NeverAllow)
        } else {
            None
        }
    }

    fn to_cil(&self) -> (r: &'static str) {
        match self {
            AllowRuleType::Allow => "allow",
            AllowRuleType::AuditAllow => "auditallow",
            AllowRuleType::DontAudit => "dontaudit",
            AllowRuleType::NeverAllow => "neverallow",
        }
    }
}

/// Kinds of file system objects a file context applies to.
#[derive(Clone, Copy, Debug, PartialEq, Eq, Structural)]
pub enum FileType {
    File,
    Dir,
    Symlink,
    BlockDevice,
    CharDevice,
    NamedPipe,
    Socket,
}

impl TypeSpecifier for FileType {
    open spec fn spec_from(value: Seq<char>) -> Option<Self> {
        if value == "file"@ {
            Some(FileType::File)
        } else if value == "dir"@ {
            Some(FileType::Dir)
        } else if value == "symlink"@ {
            Some(FileType::Symlink)
        } else if value == "char_device"@ {
            Some(FileType::CharDevice)
        } else if value == "named_pipe"@ {
            Some(FileType::NamedPipe)
        } else if value == "block_device"@ {
            Some(FileType::BlockDevice)
        } else if value == "socket"@ {
            Some(FileType::Socket)
        } else {
            None
        }
    }

    open spec fn spec_to_cil(&self) -> Seq<char> {
        match self {
            FileType::Symlink => "symlink"@,
            FileType::BlockDevice => "block_device"@,
            FileType::CharDevice => "char_device"@,
            FileType::NamedPipe => "named_pipe"@,
            FileType::Socket => "socket"@,
            FileType::File => "file"@,
            FileType::Dir => "dir"@,
        }
    }

    fn from(value: &str) -> (r: Option<Self>) {
        if str_eq(value, "file") {
            Some(FileType::File)
        } else if str_eq(value, "dir") {
            Some(FileType::Dir)
        } else if str_eq(value, "symlink") {
            Some(FileType::Symlink)
        } else if str_eq(value, "char_device") {
            Some(FileType::CharDevice)
        } else if str_eq(value, "named_pipe") {
            Some(FileType::NamedPipe)
        } else if str_eq(value, "block_device") {
            Some(FileType::BlockDevice)
        } else if str_eq(value, "socket") {
            Some(FileType::Socket)
        } else {
            None
        }
    }

    fn to_cil(&self) -> (r: &'static str) {
        match self {
            FileType::Symlink => "symlink",
            FileType::BlockDevice => "block_device",
            FileType::CharDevice => "char_device",
            FileType::NamedPipe => "named_pipe",
            FileType::Socket => "socket",
            FileType::File => "file",
            FileType::Dir => "dir",
        }
    }
}


/// A rule's access vector: either a permission expression, or a class
/// followed by a permission expression.
#[derive(Debug, PartialEq)]
pub enum AccessVector {
    Permission(Expr),
    ClassAndPermissions(Expr, Expr),
}

/// Simple statement.
#[derive(Debug, PartialEq)]
pub enum Statement {
    /// A declaration statement, declaring either a `Block`, `Symbol`, or `Macro`.
    Declaration(Declaration),
    Label(Label),
    MacroCall(Identifier, Vec<Expr>),
    IfElse {
        condition: Expr,
        then_block: Vec<Statement>,
        else_ifs: Vec<(Expr, Vec<Statement>)>,
        else_block: Option<Vec<Statement>>,
    },
    AccessVectorRule {
        rule_type: AllowRuleType,
        source: Box<Expr>,
        target: Box<Expr>,
        access_vector: Box<AccessVector>,
    },
    SetModifier { name: Identifier, cast: SymbolType, expr: Box<Expr> },
}

/// File system labelling behaviours.
#[derive(Clone, Copy, Debug, PartialEq, Eq, Structural)]
pub enum FilesystemType {
    Task,
    Trans,
    Xattr,
}

/// An object labeling statement.
#[derive(Debug, PartialEq)]
pub enum Label {
    FileContextBlock(Vec<Label>),
    /// An association of a label as a file context specification.
    FileContext { path: String, file_type: Option<FileType>, context: Box<Expr> },
    FsUse { fstype: FilesystemType, fsname: Identifier, context: Box<Expr> },
    GenFsCon { fsname: Identifier, path: String, context: Box<Expr> },
}

/// A declaration statement.
#[allow(inconsistent_fields)]
#[derive(Debug, PartialEq)]
pub enum Declaration {
    Block {
        is_abstract: bool,
        qualifier: BlockType,
        name: Identifier,
        statements: Vec<Statement>,
        extends: Option<Vec<Identifier>>,
    },
    Macro { name: Identifier, parameters: Vec<MacroParameter>, statements: Vec<Statement> },
    Symbol { qualifier: SymbolType, name: Identifier, initializer: Option<Expr> },
    Class {
        qualifier: ClassType,
        name: Identifier,
        extends: Option<Identifier>,
        access_vectors: Vec<Identifier>,
    },
}

/// An expression.
#[derive(Debug, PartialEq)]
pub enum Expr {
    Variable(Identifier),
    VariableList(Vec<Identifier>),
    Level { sensitivity: Identifier, categories: Box<Expr> },
    Context {
        user_id: Identifier,
        role_id: Identifier,
        type_id: Identifier,
        level_range: Option<Box<Expr>>,
    },
    Binary(Box<Expr>, BinaryOp, Box<Expr>),
    Unary(UnaryOp, Box<Expr>),
    LevelRange(Box<Expr>, Box<Expr>),
    CategoryRange(Identifier, Identifier),
}

/// Binary operators of expressions.
#[derive(Clone, Copy, Debug, PartialEq, Eq, Structural)]
pub enum BinaryOp {
    ConditionalAnd,
    ConditionalOr,
    ConditionalXor,
    BitwiseAnd,
    BitwiseOr,
    BitwiseXor,
}

/// Unary operators of expressions.
#[derive(Clone, Copy, Debug, PartialEq, Eq, Structural)]
pub enum UnaryOp {
    ConditionalNot,
    BitwiseNot,
}

impl Expr {
    /// A variable expression naming `value`.
    pub fn var(value: &str) -> (r: Expr)
        ensures
            r.deep_view() == SpecExpr::Variable(value@),
    {
        Expr::Variable(value.to_owned())
    }
}

/// A security context literal.
#[derive(Debug, PartialEq)]
pub struct ContextExpr {
    pub user_id: Identifier,
    pub role_id: Identifier,
    pub type_id: Identifier,
    pub level_range: Option<Box<Expr>>,
}

/// A sensitivity with its categories.
#[derive(Debug, PartialEq)]
pub struct LevelExpr {
    pub sensitivity: Identifier,
    pub categories: Box<Expr>,
}

/// A generic block statement containing an optional collection of other statements.
#[derive(Debug, PartialEq)]
pub struct Block {
    /// If this block can be inherited from.  Only valid for `BlockType::Block`.
    pub is_abstract: bool,
    /// The type specifier that qualifies this block.
    pub qualifier: BlockType,
    /// The name of this block.
    pub name: Identifier,
    /// The list of statements contained in this block.
    pub statements: Vec<Statement>,
}

/// A macro definition.
#[derive(Debug, PartialEq)]
pub struct Macro {
    pub name: Identifier,
    pub parameters: Vec<MacroParameter>,
    pub statements: Vec<Statement>,
}

/// One typed parameter of a macro definition.
#[derive(Debug, PartialEq)]
pub struct MacroParameter {
    pub qualifier: SymbolType,
    pub name: Identifier,
}

// The mathematical model of the trees: identifiers become character
// sequences, boxes and vectors become values and sequences.

/// Model of an `Expr`.
pub enum SpecExpr {
    Variable(Seq<char>),
    VariableList(Seq<Seq<char>>),
    Level { sensitivity: Seq<char>, categories: Box<SpecExpr> },
    Context {
        user_id: Seq<char>,
        role_id: Seq<char>,
        type_id: Seq<char>,
        level_range: Option<Box<SpecExpr>>,
    },
    Binary(Box<SpecExpr>, BinaryOp, Box<SpecExpr>),
    Unary(UnaryOp, Box<SpecExpr>),
    LevelRange(Box<SpecExpr>, Box<SpecExpr>),
    CategoryRange(Seq<char>, Seq<char>),
}

/// Model of an `AccessVector`.
pub enum SpecAccessVector {
    Permission(SpecExpr),
    ClassAndPermissions(SpecExpr, SpecExpr),
}

/// Model of a `MacroParameter`.
pub struct SpecMacroParameter {
    pub qualifier: SymbolType,
    pub name: Seq<char>,
}

/// Model of a `Declaration`.
#[allow(inconsistent_fields)]
pub enum SpecDeclaration {
    Block {
        is_abstract: bool,
        qualifier: BlockType,
        name: Seq<char>,
        statements: Seq<SpecStatement>,
        extends: Option<Seq<Seq<char>>>,
    },
    Macro { name: Seq<char>, parameters: Seq<SpecMacroParameter>, statements: Seq<SpecStatement> },
    Symbol { qualifier: SymbolType, name: Seq<char>, initializer: Option<SpecExpr> },
    Class {
        qualifier: ClassType,
        name: Seq<char>,
        extends: Option<Seq<char>>,
        access_vectors: Seq<Seq<char>>,
    },
}

/// Model of a `Statement`; labels are kept as they are.
pub enum SpecStatement {
    Declaration(SpecDeclaration),
    Label(Label),
    MacroCall(Seq<char>, Seq<SpecExpr>),
    IfElse {
        condition: SpecExpr,
        then_block: Seq<SpecStatement>,
        else_ifs: Seq<(SpecExpr, Seq<SpecStatement>)>,
        else_block: Option<Seq<SpecStatement>>,
    },
    AccessVectorRule {
        rule_type: AllowRuleType,
        source: SpecExpr,
        target: SpecExpr,
        access_vector: SpecAccessVector,
    },
    SetModifier { name: Seq<char>, cast: SymbolType, expr: SpecExpr },
}

/// The model of an expression.
pub open spec fn expr_view(e: Expr) -> SpecExpr
    decreases e,
{
    match e {
        Expr::Variable(v) => SpecExpr::Variable(v@),
        Expr::VariableList(vs) => SpecExpr::VariableList(vs.deep_view()),
        Expr::Level { sensitivity, categories } => SpecExpr::Level {
            sensitivity: sensitivity@,
            categories: Box::new(expr_view(*categories)),
        },
        Expr::Context { user_id, role_id, type_id, level_range } => SpecExpr::Context {
            user_id: user_id@,
            role_id: role_id@,
            type_id: type_id@,
            level_range: match level_range {
                Some(l) => Some(Box::new(expr_view(*l))),
                None => None,
            },
        },
        Expr::Binary(l, op, r) => SpecExpr::Binary(
            Box::new(expr_view(*l)),
            op,
            Box::new(expr_view(*r)),
        ),
        Expr::Unary(op, x) => SpecExpr::Unary(op, Box::new(expr_view(*x))),
        Expr::LevelRange(lo, hi) => SpecExpr::LevelRange(
            Box::new(expr_view(*lo)),
            Box::new(expr_view(*hi)),
        ),
        Expr::CategoryRange(lo, hi) => SpecExpr::CategoryRange(lo@, hi@),
    }
}

/// The model of a sequence of expressions.
pub open spec fn exprs_view(v: Seq<Expr>) -> Seq<SpecExpr> {
    v.map_values(|e: Expr| expr_view(e))
}

/// The model of an access vector.
pub open spec fn access_vector_view(a: AccessVector) -> SpecAccessVector {
    match a {
        AccessVector::Permission(e) => SpecAccessVector::Permission(expr_view(e)),
        AccessVector::ClassAndPermissions(c, p) => SpecAccessVector::ClassAndPermissions(
            expr_view(c),
            expr_view(p),
        ),
    }
}

/// The model of a macro parameter.
pub open spec fn param_view(p: MacroParameter) -> SpecMacroParameter {
    SpecMacroParameter { qualifier: p.qualifier, name: p.name@ }
}

/// The model of a sequence of macro parameters.
pub open spec fn params_view(v: Seq<MacroParameter>) -> Seq<SpecMacroParameter> {
    v.map_values(|p: MacroParameter| param_view(p))
}

/// The model of a statement.
pub open spec fn stmt_view(s: Statement) -> SpecStatement
    decreases s,
{
    match s {
        Statement::Declaration(d) => SpecStatement::Declaration(decl_view(d)),
        Statement::Label(l) => SpecStatement::Label(l),
        Statement::MacroCall(n, args) => SpecStatement::MacroCall(n@, exprs_view(args@)),
        Statement::IfElse { condition, then_block, else_ifs, else_block } => SpecStatement::IfElse {
            condition: expr_view(condition),
            then_block: stmts_view(then_block@),
            else_ifs: else_ifs_view(else_ifs@),
            else_block: match else_block {
                Some(b) => Some(stmts_view(b@)),
                None => None,
            },
        },
        Statement::AccessVectorRule { rule_type, source, target, access_vector } =>
            SpecStatement::AccessVectorRule {
                rule_type,
                source: expr_view(*source),
                target: expr_view(*target),
                access_vector: access_vector_view(*access_vector),
            },
        Statement::SetModifier { name, cast, expr } => SpecStatement::SetModifier {
            name: name@,
            cast,
            expr: expr_view(*expr),
        },
    }
}

/// The model of a declaration.
pub open spec fn decl_view(d: Declaration) -> SpecDeclaration
    decreases d,
{
    match d {
        Declaration::Block { is_abstract, qualifier, name, statements, extends } =>
            SpecDeclaration::Block {
                is_abstract,
                qualifier,
                name: name@,
                statements: stmts_view(statements@),
                extends: match extends {
                    Some(e) => Some(e.deep_view()),
                    None => None,
                },
            },
        Declaration::Macro { name, parameters, statements } => SpecDeclaration::Macro {
            name: name@,
            parameters: params_view(parameters@),
            statements: stmts_view(statements@),
        },
        Declaration::Symbol { qualifier, name, initializer } => SpecDeclaration::Symbol {
            qualifier,
            name: name@,
            initializer: match initializer {
                Some(e) => Some(expr_view(e)),
                None => None,
            },
        },
        Declaration::Class { qualifier, name, extends, access_vectors } =>
            SpecDeclaration::Class {
                qualifier,
                name: name@,
                extends: match extends {
                    Some(e) => Some(e@),
                    None => None,
                },
                access_vectors: access_vectors.deep_view(),
            },
    }
}

/// The model of a sequence of statements.
pub open spec fn stmts_view(v: Seq<Statement>) -> Seq<SpecStatement>
    decreases v,
{
    if v.len() == 0 {
        Seq::empty()
    } else {
        stmts_view(v.drop_last()).push(stmt_view(v.last()))
    }
}

/// The model of the `elseif` branches of a conditional.
pub open spec fn else_ifs_view(v: Seq<(Expr, Vec<Statement>)>) -> Seq<(SpecExpr, Seq<SpecStatement>)>
    decreases v,
{
    if v.len() == 0 {
        Seq::empty()
    } else {
        else_ifs_view(v.drop_last()).push((expr_view(v.last().0), stmts_view(v.last().1@)))
    }
}

impl DeepView for Expr {
    type V = SpecExpr;

    open spec fn deep_view(&self) -> SpecExpr {
        expr_view(*self)
    }
}

impl DeepView for Statement {
    type V = SpecStatement;

    open spec fn deep_view(&self) -> SpecStatement {
        stmt_view(*self)
    }
}

impl DeepView for Declaration {
    type V = SpecDeclaration;

    open spec fn deep_view(&self) -> SpecDeclaration {
        decl_view(*self)
    }
}

impl DeepView for AccessVector {
    type V = SpecAccessVector;

    open spec fn deep_view(&self) -> SpecAccessVector {
        access_vector_view(*self)
    }
}

impl DeepView for MacroParameter {
    type V = SpecMacroParameter;

    open spec fn deep_view(&self) -> SpecMacroParameter {
        param_view(*self)
    }
}

} // verus!

verus! {

/// Appending a statement appends its model.
pub proof fn lemma_stmts_view_push(v: Seq<Statement>, x: Statement)
    ensures
        stmts_view(v.push(x)) == stmts_view(v).push(stmt_view(x)),
        stmts_view(v).len() == v.len(),
    decreases v.len(),
{
    assert(v.push(x).drop_last() =~= v);
    if v.len() > 0 {
        lemma_stmts_view_push(v.drop_last(), v.last());
    }
}

/// The model of no statements is empty.
pub proof fn lemma_stmts_view_empty(v: Seq<Statement>)
    requires
        v.len() == 0,
    ensures
        stmts_view(v) == Seq::<SpecStatement>::empty(),
{
}

/// Appending an `elseif` branch appends its model.
pub proof fn lemma_else_ifs_view_push(v: Seq<(Expr, Vec<Statement>)>, x: (Expr, Vec<Statement>))
    ensures
        else_ifs_view(v.push(x)) == else_ifs_view(v).push((expr_view(x.0), stmts_view(x.1@))),
{
    assert(v.push(x).drop_last() =~= v);
}

} // verus!

verus! {

/// A block type converts to its text and back.
pub proof fn lemma_block_type_round_trip(x: BlockType)
    ensures
        BlockType::spec_from(x.spec_to_cil()) == Some(x),
{
    reveal_strlit("block");
    reveal_strlit("optional");
    assert("block"@.len() != "optional"@.len());
    match x {
        BlockType::Block => {},
        BlockType::Optional => {},
    }
}

/// A class type converts to its text and back.
pub proof fn lemma_class_type_round_trip(x: ClassType)
    ensures
        ClassType::spec_from(x.spec_to_cil()) == Some(x),
{
    reveal_strlit("class");
    reveal_strlit("common");
    assert("class"@.len() != "common"@.len());
    match x {
        ClassType::Class => {},
        ClassType::Common => {},
    }
}

/// An access vector rule type converts to its text and back.
pub proof fn lemma_allow_rule_type_round_trip(x: AllowRuleType)
    ensures
        AllowRuleType::spec_from(x.spec_to_cil()) == Some(x),
{
    reveal_strlit("allow");
    reveal_strlit("auditallow");
    reveal_strlit("dontaudit");
    reveal_strlit("neverallow");
    assert("allow"@.len() != "auditallow"@.len());
    assert("allow"@.len() != "dontaudit"@.len());
    assert("allow"@.len() != "neverallow"@.len());
    assert("auditallow"@.len() != "dontaudit"@.len());
    assert("auditallow"@[0] != "neverallow"@[0]);
    assert("dontaudit"@.len() != "neverallow"@.len());
    match x {
        AllowRuleType::Allow => {},
        AllowRuleType::NeverAllow => {},
        AllowRuleType::AuditAllow => {},
        AllowRuleType::DontAudit => {},
    }
}

/// Exactly the seven file type names are read as file types.
pub proof fn lemma_file_type_names(v: Seq<char>)
    ensures
        FileType::spec_from(v) is Some <==> (v == "file"@ || v == "dir"@ || v == "symlink"@ || v
            == "char_device"@ || v == "named_pipe"@ || v == "block_device"@ || v == "socket"@),
{
}

/// A file type converts to its text and back.
pub proof fn lemma_file_type_round_trip(x: FileType)
    ensures
        FileType::spec_from(x.spec_to_cil()) == Some(x),
{
    reveal_strlit("file");
    reveal_strlit("dir");
    reveal_strlit("symlink");
    reveal_strlit("char_device");
    reveal_strlit("named_pipe");
    reveal_strlit("block_device");
    reveal_strlit("socket");
    assert("file"@.len() != "dir"@.len());
    assert("file"@.len() != "symlink"@.len());
    assert("file"@.len() != "char_device"@.len());
    assert("file"@.len() != "named_pipe"@.len());
    assert("file"@.len() != "block_device"@.len());
    assert("file"@.len() != "socket"@.len());
    assert("dir"@.len() != "symlink"@.len());
    assert("dir"@.len() != "char_device"@.len());
    assert("dir"@.len() != "named_pipe"@.len());
    assert("dir"@.len() != "block_device"@.len());
    assert("dir"@.len() != "socket"@.len());
    assert("symlink"@.len() != "char_device"@.len());
    assert("symlink"@.len() != "named_pipe"@.len());
    assert("symlink"@.len() != "block_device"@.len());
    assert("symlink"@.len() != "socket"@.len());
    assert("char_device"@.len() != "named_pipe"@.len());
    assert("char_device"@.len() != "block_device"@.len());
    assert("char_device"@.len() != "socket"@.len());
    assert("named_pipe"@.len() != "block_device"@.len());
    assert("named_pipe"@.len() != "socket"@.len());
    assert("block_device"@.len() != "socket"@.len());
    match x {
        FileType::File => {},
        FileType::Dir => {},
        FileType::Symlink => {},
        FileType::BlockDevice => {},
        FileType::CharDevice => {},
        FileType::NamedPipe => {},
        FileType::Socket => {},
    }
}

/// A symbol type whose CIL keyword is also its own keyword converts to its
/// text and back: types, users, roles and contexts.
pub proof fn lemma_symbol_type_round_trip(x: SymbolType)
    requires
        x == SymbolType::Type || x == SymbolType::User || x == SymbolType::Role || x
            == SymbolType::Context,
    ensures
        SymbolType::spec_from(x.spec_to_cil()) == Some(x),
{
    reveal_strlit("type");
    reveal_strlit("type_attribute");
    reveal_strlit("user");
    reveal_strlit("user_attribute");
    reveal_strlit("role");
    reveal_strlit("role_attribute");
    reveal_strlit("context");
    assert("type"@.len() != "type_attribute"@.len());
    assert("type"@[0] != "user"@[0]);
    assert("type"@.len() != "user_attribute"@.len());
    assert("type"@[0] != "role"@[0]);
    assert("type"@.len() != "role_attribute"@.len());
    assert("type"@.len() != "context"@.len());
    assert("type_attribute"@.len() != "user"@.len());
    assert("type_attribute"@[0] != "user_attribute"@[0]);
    assert("type_attribute"@.len() != "role"@.len());
    assert("type_attribute"@[0] != "role_attribute"@[0]);
    assert("type_attribute"@.len() != "context"@.len());
    assert("user"@.len() != "user_attribute"@.len());
    assert("user"@[0] != "role"@[0]);
    assert("user"@.len() != "role_attribute"@.len());
    assert("user"@.len() != "context"@.len());
    assert("user_attribute"@.len() != "role"@.len());
    assert("user_attribute"@[0] != "role_attribute"@[0]);
    assert("user_attribute"@.len() != "context"@.len());
    assert("role"@.len() != "role_attribute"@.len());
    assert("role"@.len() != "context"@.len());
    assert("role_attribute"@.len() != "context"@.len());
    match x {
        SymbolType::Type => {},
        SymbolType::TypeAttribute => {},
        SymbolType::Role => {},
        SymbolType::RoleAttribute => {},
        SymbolType::User => {},
        SymbolType::UserAttribute => {},
        SymbolType::Context => {},
        SymbolType::Sensitivity => {},
        SymbolType::LevelRange => {},
        SymbolType::Category => {},
    }
}

/// Text that names a block, class, rule or file type is the text of that
/// type.
pub proof fn lemma_type_specifier_text(v: Seq<char>)
    ensures
        BlockType::spec_from(v) matches Some(x) ==> x.spec_to_cil() == v,
        ClassType::spec_from(v) matches Some(x) ==> x.spec_to_cil() == v,
        AllowRuleType::spec_from(v) matches Some(x) ==> x.spec_to_cil() == v,
        FileType::spec_from(v) matches Some(x) ==> x.spec_to_cil() == v,
{
}

} // verus!
