use secsp::ast::{BlockType, Declaration, Expr, Statement, SymbolType, TypeSpecifier, AllowRuleType, ClassType, FileType};
use secsp::expr::expr;
use secsp::security_attributes::context;
use secsp::parser::statement_list;
use secsp::scan::{identifiers_are_text, ErrorKind, Failure, Needed, Outcome};
use secsp::text::{str_eq, string_from_utf8};
use secsp::{parse_from_slice, parse_text, ParseError, ParseResult};

#[test]
fn parses_doc_example() {
    let input = b"block abc{}";
    match parse_from_slice(&input[..]) {
        ParseResult::Parsed(statements) => assert_eq!(
            vec![Statement::Declaration(Declaration::Block {
                is_abstract: false,
                qualifier: BlockType::Block,
                name: "abc".to_string(),
                statements: vec![],
                extends: None,
            })],
            statements
        ),
        other => panic!("unexpected result: {:?}", other),
    }
}

#[test]
fn parses_empty_input() {
    assert_eq!(ParseResult::Parsed(vec![]), parse_from_slice(b""));
}

#[test]
fn reports_first_line_of_leftover_input() {
    assert_eq!(
        ParseResult::Failed(ParseError {
            kind: ErrorKind::Custom(0),
            info: "foo bar".to_string(),
        }),
        parse_from_slice(b"type t;\nfoo bar\r\nbaz")
    );
}

#[test]
fn reports_needed_input() {
    assert_eq!(ParseResult::Incomplete(Needed::Size(10)), parse_from_slice(b"block abc"));
}

#[test]
fn parses_nested_statements() {
    let result = parse_from_slice(b"optional o { type t; m(t, u); if a && b { } elseif c {} }");
    match result {
        ParseResult::Parsed(statements) => {
            assert_eq!(1, statements.len());
            match &statements[0] {
                Statement::Declaration(Declaration::Block { qualifier, statements, .. }) => {
                    assert_eq!(BlockType::Optional, *qualifier);
                    assert_eq!(3, statements.len());
                    assert_eq!(
                        Statement::Declaration(Declaration::Symbol {
                            qualifier: SymbolType::Type,
                            name: "t".to_string(),
                            initializer: None,
                        }),
                        statements[0]
                    );
                    assert_eq!(
                        Statement::MacroCall("m".to_string(), vec![Expr::var("t"), Expr::var("u")]),
                        statements[1]
                    );
                    match &statements[2] {
                        Statement::IfElse { else_ifs, else_block, .. } => {
                            assert_eq!(1, else_ifs.len());
                            assert_eq!(Expr::var("c"), else_ifs[0].0);
                            assert_eq!(None, *else_block);
                        },
                        other => panic!("unexpected statement: {:?}", other),
                    }
                },
                other => panic!("unexpected statement: {:?}", other),
            }
        },
        other => panic!("unexpected result: {:?}", other),
    }
}

#[test]
fn statement_list_stops_at_unknown_input() {
    match statement_list(b"type t; 42;", 0) {
        Outcome::Done(q, v) => {
            assert_eq!(8, q);
            assert_eq!(1, v.len());
        },
        _ => panic!("statement list failed"),
    }
}

#[test]
fn expression_error_is_raised_at_its_offset() {
    match expr(b"&", 0) {
        Outcome::Error(f) => assert_eq!(Failure::Position(ErrorKind::Alt, 0), f),
        _ => panic!("expected an error"),
    }
}

#[test]
fn expression_of_nothing_fails() {
    match expr(b"", 0) {
        Outcome::Error(f) => assert_eq!(Failure::Position(ErrorKind::Alt, 0), f),
        _ => panic!("expected an error"),
    }
}

#[test]
fn context_needs_more_input() {
    match context(b"user:role", 0) {
        Outcome::Incomplete(n) => assert_eq!(10, n),
        _ => panic!("expected a need for input"),
    }
}

#[test]
fn statement_list_passes_on_a_need_for_input() {
    match statement_list(b"type t; 42", 0) {
        Outcome::Incomplete(n) => assert_eq!(11, n),
        _ => panic!("expected a need for input"),
    }
}

#[test]
fn identifiers_may_hold_latin_letters() {
    match expr("\u{f5}x".as_bytes(), 0) {
        Outcome::Done(q, e) => {
            assert_eq!(3, q);
            assert_eq!(Expr::var("\u{f5}x"), e);
        },
        _ => panic!("expected an identifier"),
    }
}

#[test]
fn text_helpers() {
    assert!(str_eq("block", "block"));
    assert!(!str_eq("block", "blocks"));
    assert_eq!(Some("ab".to_string()), string_from_utf8(b"ab"));
    assert_eq!(None, string_from_utf8(&[0xc3]));
}

#[test]
fn type_specifiers_convert_to_text_and_back() {
    for b in [BlockType::Block, BlockType::Optional] {
        assert_eq!(Some(b), <BlockType as TypeSpecifier>::from(b.to_cil()));
    }
    for c in [ClassType::Class, ClassType::Common] {
        assert_eq!(Some(c), <ClassType as TypeSpecifier>::from(c.to_cil()));
    }
    for r in [AllowRuleType::Allow, AllowRuleType::NeverAllow, AllowRuleType::AuditAllow, AllowRuleType::DontAudit] {
        assert_eq!(Some(r), <AllowRuleType as TypeSpecifier>::from(r.to_cil()));
    }
    for f in [FileType::File, FileType::Dir, FileType::Symlink, FileType::BlockDevice, FileType::CharDevice, FileType::NamedPipe, FileType::Socket] {
        assert_eq!(Some(f), <FileType as TypeSpecifier>::from(f.to_cil()));
    }
    for s in [SymbolType::Type, SymbolType::User, SymbolType::Role, SymbolType::Context] {
        assert_eq!(Some(s), <SymbolType as TypeSpecifier>::from(s.to_cil()));
    }
    assert_eq!(None, <SymbolType as TypeSpecifier>::from(SymbolType::TypeAttribute.to_cil()));
    assert_eq!(Some(SymbolType::TypeAttribute), <SymbolType as TypeSpecifier>::from("type_attribute"));
}

#[test]
fn identifiers_are_text_decides_the_input_condition() {
    assert!(identifiers_are_text(b"type t;"));
    assert!(identifiers_are_text("\u{aa}".as_bytes()));
    assert!(!identifiers_are_text("\u{e9}".as_bytes()));
    assert!(!identifiers_are_text(&[0x61, 0xff]));
    assert!(identifiers_are_text(b""));
}

#[test]
fn parse_text_checks_its_input_first() {
    assert_eq!(Some(parse_from_slice(b"block abc{}")), parse_text(b"block abc{}"));
    assert_eq!(Some(parse_from_slice(b"type a;\n$")), parse_text(b"type a;\n$"));
    assert_eq!(None, parse_text("type \u{e9};".as_bytes()));
    assert_eq!(None, parse_text(&[0x74, 0xff]));
}
