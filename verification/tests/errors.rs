use secsp::ast::BlockType;
use secsp::expr::variable_list;
use secsp::name::{type_specifier, variable};
use secsp::parser::macro_call;
use secsp::scan::{ErrorKind, Failure, Outcome};
use secsp::security_attributes::context;

fn failure<T>(o: Outcome<T>) -> Failure {
    match o {
        Outcome::Error(f) => f,
        Outcome::Done(q, _) => panic!("parsed up to {}", q),
        Outcome::Incomplete(n) => panic!("needs input up to {}", n),
    }
}

#[test]
fn tag_error_at_its_offset() {
    assert_eq!(Failure::Position(ErrorKind::Tag, 5), failure(macro_call(b"name x);", 0)));
}

#[test]
fn char_error_at_its_offset() {
    assert_eq!(Failure::Position(ErrorKind::Char, 4), failure(context(b"user;role:type", 0)));
}

#[test]
fn identifier_error_at_its_offset() {
    assert_eq!(Failure::Position(ErrorKind::TakeWhile1, 0), failure(variable(b"!a", 0)));
}

#[test]
fn variable_list_needs_one_name() {
    assert_eq!(Failure::Position(ErrorKind::Many1, 0), failure(variable_list(b")", 0)));
}

#[test]
fn unknown_type_specifier() {
    assert_eq!(Failure::Code(ErrorKind::AlphaNumeric), failure(type_specifier::<BlockType>(b"blocks x", 0)));
}

#[test]
fn type_specifier_reads_a_known_word() {
    match type_specifier::<BlockType>(b"optional x", 0) {
        Outcome::Done(q, t) => {
            assert_eq!(8, q);
            assert_eq!(BlockType::Optional, t);
        },
        _ => panic!("expected a block type"),
    }
}
