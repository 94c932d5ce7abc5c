use secsp::ast::{
    AccessVector, AllowRuleType, BinaryOp, BlockType, Declaration, Expr, Statement, SymbolType,
    UnaryOp,
};
use secsp::expr::expr;
use secsp::name::type_specifier;
use secsp::parser::{block_declaration, if_else, macro_call, macro_declaration, symbol_declaration};
use secsp::scan::Outcome;
use secsp::security_attributes::{context, level_range};
use secsp::type_enforcement::allow_rule;

fn parse<O>(input: &str, parser: fn(&[u8], usize) -> Outcome<O>) -> O {
    match parser(input.as_bytes(), 0) {
        Outcome::Done(_, output) => output,
        Outcome::Incomplete(n) => panic!("incomplete: {:?}", n),
        Outcome::Error(e) => panic!("error: {:?}", e),
    }
}

#[test]
fn parse_unary_with_binary_expr() {
    let expected = Expr::Binary(
        Box::from(Expr::Unary(UnaryOp::ConditionalNot, Box::from(Expr::var("a")))),
        BinaryOp::ConditionalOr,
        Box::from(Expr::var("b")),
    );

    let result = parse::<Expr>("!a || b", expr);
    assert_eq!(expected, result);
}

#[test]
fn expr_parse_unary_expr() {
    let expected = Expr::Unary(UnaryOp::ConditionalNot, Box::from(Expr::var("a")));
    let result = parse::<Expr>("!a", expr);

    assert_eq!(expected, result);
}

#[test]
fn parse_logical_xor_expr() {
    let expected = Expr::Binary(
        Box::from(Expr::var("a")),
        BinaryOp::ConditionalXor,
        Box::from(Expr::var("b")),
    );

    let result = parse::<Expr>("a ^^ b", expr);
    assert_eq!(expected, result);
}

#[test]
fn parse_logical_or_expr() {
    let expected = Expr::Binary(
        Box::from(Expr::var("a")),
        BinaryOp::ConditionalOr,
        Box::from(Expr::var("b")),
    );

    let result = parse::<Expr>("a || b", expr);
    assert_eq!(expected, result);
}

#[test]
fn parse_logical_and_expr() {
    let expected = Expr::Binary(
        Box::from(Expr::var("a")),
        BinaryOp::ConditionalAnd,
        Box::from(Expr::var("b")),
    );

    let result = parse::<Expr>("a && b", expr);
    assert_eq!(expected, result);
}

#[test]
fn parse_variable_list_binary_expr() {
    let expected = Expr::Binary(
        Box::from(Expr::VariableList(vec!["a".to_string(), "b".to_string()])),
        BinaryOp::BitwiseAnd,
        Box::from(Expr::VariableList(vec!["a".to_string(), "d".to_string()])),
    );

    let actual = parse::<Expr>("(a b) & (a d)", expr);
    assert_eq!(expected, actual);
}

#[test]
fn parse_variable_list_unary_and_binary_expr() {
    let expected = Expr::Binary(
        Box::from(Expr::Unary(
            UnaryOp::BitwiseNot,
            Box::from(Expr::VariableList(vec!["a".to_string(), "b".to_string()])),
        )),
        BinaryOp::BitwiseXor,
        Box::from(Expr::var("c")),
    );

    let actual = parse::<Expr>("~(a b) ^ c", expr);
    assert_eq!(expected, actual);
}

#[test]
fn parse_type_specifier() {
    assert_eq!(parse::<SymbolType>("type", type_specifier::<SymbolType>), SymbolType::Type);
}

#[test]
fn parse_block_decl() {
    let result = parse::<Declaration>("abstract block abc {}", block_declaration);

    match result {
        Declaration::Block { is_abstract, qualifier, name, .. } => {
            assert_eq!(true, is_abstract);
            assert_eq!("abc", name);
            assert_eq!(BlockType::Block, qualifier);
        },
        _ => panic!("Invalid value"),
    }
}

#[test]
fn parse_abstract_block_decl() {
    let result = parse::<Declaration>("abstract block abc {}", block_declaration);

    match result {
        Declaration::Block { is_abstract, .. } => assert_eq!(true, is_abstract),
        _ => panic!("Invalid value"),
    }
}

#[test]
fn parse_symbol_decl() {
    let result = parse::<Declaration>("type_attribute my_type;", symbol_declaration);

    match result {
        Declaration::Symbol { qualifier, name, initializer } => {
            assert_eq!(SymbolType::TypeAttribute, qualifier);
            assert_eq!("my_type", name);
            assert_eq!(None, initializer)
        },
        _ => panic!("Invalid value parsed"),
    }
}

#[test]
fn parse_symbol_decl_with_initializer() {
    let result =
        parse::<Declaration>("context my_context = user:role:type:s0-s1;", symbol_declaration);

    match result {
        Declaration::Symbol { qualifier, name, initializer } => {
            assert_eq!(SymbolType::Context, qualifier);
            assert_eq!("my_context", name);

            match initializer {
                Some(Expr::Context { .. }) => {},
                _ => panic!("No initializer found"),
            }
        },
        _ => panic!("Invalid value parsed"),
    }
}

#[test]
fn parse_macro_decl() {
    let result = parse::<Declaration>(
        "macro my_macro(type v, type v1) {

            }",
        macro_declaration,
    );

    match result {
        Declaration::Macro { name, parameters, .. } => {
            assert_eq!("my_macro", name);
            assert_eq!("v", parameters[0].name);
            assert_eq!("v1", parameters[1].name);
        },
        _ => panic!("Invalid value parsed"),
    }
}

#[test]
fn parse_macro_call() {
    let result = parse::<Statement>("my_macro(type_name);", macro_call);

    if let Statement::MacroCall(ref name, ref params) = result {
        assert_eq!("my_macro", name);
        assert_eq!(Expr::var("type_name"), params[0])
    } else {
        panic!("Invalid value parsed");
    }
}

#[test]
fn parse_if_then_else() {
    let result = parse::<Statement>("if my_bool {} else{}", if_else);

    match result {
        Statement::IfElse { condition, else_block, .. } => {
            assert_eq!(Expr::var("my_bool"), condition);
            assert_eq!(Some(vec![]), else_block);
        },
        _ => panic!("Invalid value parsed"),
    }
}

#[test]
fn parse_if() {
    let result = parse::<Statement>("if my_bool {}", if_else);

    match result {
        Statement::IfElse { condition, else_block, .. } => {
            assert_eq!(Expr::var("my_bool"), condition);
            assert_eq!(None, else_block);
        },
        _ => panic!("Invalid value parsed"),
    }
}

#[test]
fn security_attributes_parse_context_expr() {
    let result = parse::<Expr>("user:role:type", context);

    match result {
        Expr::Context { user_id, role_id, type_id, level_range } => {
            assert_eq!("user", user_id);
            assert_eq!("role", role_id);
            assert_eq!("type", type_id);
            assert_eq!(true, level_range.is_none());
        },
        _ => panic!("Invalid value parsed"),
    }
}

#[test]
fn parse_levelrange_expr() {
    let result = parse::<Expr>("s0-s1", level_range);

    if let Expr::LevelRange(low, high) = result {
        assert_eq!(Expr::var("s0"), *low);
        assert_eq!(Expr::var("s1"), *high);
    } else {
        panic!("Invalid value parsed");
    }
}

#[test]
fn parse_context_expr_with_levelrange() {
    let result = parse::<Expr>("user:role:type:s0 - s1", context);

    match result {
        Expr::Context { level_range, .. } => {
            if let Expr::LevelRange(ref low, ref high) = *level_range.unwrap() {
                assert_eq!(Expr::var("s0"), **low);
                assert_eq!(Expr::var("s1"), **high);
            } else {
                panic!("No level range found");
            }
        },
        _ => panic!("Invalid value parsed"),
    }
}

#[test]
fn parse_allow_rule() {
    let expected = Statement::AccessVectorRule {
        rule_type: AllowRuleType::Allow,
        source: Box::from(Expr::var("a")),
        target: Box::from(Expr::var("b")),
        access_vector: Box::from(AccessVector::Permission(Expr::var("c"))),
    };

    let actual = parse::<Statement>("allow a b : c;", allow_rule);
    assert_eq!(expected, actual);
}

#[test]
fn parse_dontaudit_rule_with_permission_sets() {
    let expected = Statement::AccessVectorRule {
        rule_type: AllowRuleType::DontAudit,
        source: Box::from(Expr::var("a")),
        target: Box::from(Expr::var("b")),
        access_vector: Box::from(AccessVector::Permission(Expr::Binary(
            Box::from(Expr::var("permission_set_1")),
            BinaryOp::BitwiseAnd,
            Box::from(Expr::var("permission_set_2")),
        ))),
    };

    let actual =
        parse::<Statement>("dontaudit a b : permission_set_1 & permission_set_2;", allow_rule);
    assert_eq!(actual, expected);
}

#[test]
fn parse_allow_rule_with_class_and_permisisons() {
    let expected = Statement::AccessVectorRule {
        rule_type: AllowRuleType::AuditAllow,
        source: Box::from(Expr::var("a")),
        target: Box::from(Expr::var("b")),
        access_vector: Box::from(AccessVector::ClassAndPermissions(
            Expr::var("class"),
            Expr::Binary(
                Box::from(Expr::var("permission1")),
                BinaryOp::BitwiseOr,
                Box::from(Expr::var("permission2")),
            ),
        )),
    };

    let actual =
        parse::<Statement>("auditallow a b : class (permission1 | permission2);", allow_rule);
    assert_eq!(expected, actual);
}
