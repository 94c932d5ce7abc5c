//! Parsing backend for the CSP policy language, with verified contracts.
//!
//! `parse_from_slice` parses a list of statements from the bytes of a
//! source.  `ast` holds the statement and expression trees; `name`, `expr`,
//! `security_attributes`, `type_enforcement` and `parser` hold the grammar
//! of the language as functions from an input and an offset to an
//! `Outcome`, each with a mathematical model that its contract follows.

pub mod ast;
pub mod text;
pub mod scan;
pub mod name;
pub mod security_attributes;
pub mod expr;
pub mod parser;
pub mod type_enforcement;
pub mod syntax;
pub mod input_text;
pub mod grammar_laws;

use vstd::prelude::*;
use crate::ast::{SpecStatement, Statement, stmts_view};
use crate::parser::{spec_stmts_from, statement_list};
use crate::scan::{ErrorKind, Failure, Needed, Outcome, SOutcome, input_fits};
use crate::text::string_from_utf8;
use vstd::utf8::*;

verus! {

/// A parse error: the kind of failure, and the first line of the input from
/// where the parser gave up.
#[derive(Debug, PartialEq)]
pub struct ParseError {
    pub kind: ErrorKind,
    pub info: String,
}

/// Parse result. It can either be parsed, incomplete or errored.
#[derive(Debug, PartialEq)]
pub enum ParseResult {
    /// The source was successfully parsed.
    Parsed(Vec<Statement>),
    /// The parser failed with a `ParseError`.
    Failed(ParseError),
    /// More data is required to go on.
    Incomplete(Needed),
}

/// The model of a parse result.  `Abort` stands for an input on which the
/// parser has no result: an identifier, or the line reported with an
/// error, that is not well-formed UTF-8.
pub enum SpecParseResult {
    Parsed(Seq<SpecStatement>),
    Failed(ErrorKind, Seq<char>),
    Incomplete(Needed),
    Abort,
}

/// The model of a `ParseResult`.
pub open spec fn parse_result_view(r: ParseResult) -> SpecParseResult {
    match r {
        ParseResult::Parsed(v) => SpecParseResult::Parsed(stmts_view(v@)),
        ParseResult::Failed(e) => SpecParseResult::Failed(e.kind, e.info@),
        ParseResult::Incomplete(n) => SpecParseResult::Incomplete(n),
    }
}

/// The offset of the first line feed at or after `i`, or the length of
/// the input where there is none.
pub open spec fn line_end(s: Seq<u8>, i: int) -> int
    decreases s.len() - i,
{
    if i < 0 || i >= s.len() || s[i] == 0x0a {
        i
    } else {
        line_end(s, i + 1)
    }
}

/// The bytes of the first line of the input from `i`: up to the first
/// line feed, without a carriage return that stands just before it.  There
/// is no line from outside the input.
pub open spec fn first_line(s: Seq<u8>, i: int) -> Seq<u8> {
    let e = line_end(s, i);
    if i < 0 || i > s.len() {
        Seq::empty()
    } else if e < s.len() && e > i && s[e - 1] == 0x0d {
        s.subrange(i, e - 1)
    } else {
        s.subrange(i, e)
    }
}

/// An error report whose information is the first line from `i`.
pub open spec fn report_at(s: Seq<u8>, kind: ErrorKind, i: int) -> SpecParseResult {
    if valid_utf8(first_line(s, i)) {
        SpecParseResult::Failed(kind, decode_utf8(first_line(s, i)))
    } else {
        SpecParseResult::Abort
    }
}

/// The result of parsing the whole input as a list of statements: the
/// statements where they cover the input; where input is left over, an
/// error `Custom(0)` reporting the first line of what is left; a failure
/// with its kind and the first line from where it was raised (nothing for a
/// failure with no offset); and the offset up to which input is needed.
pub open spec fn spec_parse_from_slice(s: Seq<u8>) -> SpecParseResult {
    match spec_stmts_from(s, 0, Seq::empty(), false) {
        SOutcome::Done(q, stmts) => if q == s.len() {
            SpecParseResult::Parsed(stmts)
        } else {
            report_at(s, ErrorKind::Custom(0), q)
        },
        SOutcome::Error(Failure::Code(k)) => SpecParseResult::Failed(k, Seq::empty()),
        SOutcome::Error(Failure::Position(k, p)) => report_at(s, k, p as int),
        SOutcome::Incomplete(n) => SpecParseResult::Incomplete(Needed::Size(n as usize)),
        SOutcome::Abort => SpecParseResult::Abort,
    }
}

/// Reads the first line of the input from `i`.
fn line_at(s: &[u8], i: usize) -> (r: String)
    requires
        i <= s@.len(),
        valid_utf8(first_line(s@, i as int)),
    ensures
        r@ == decode_utf8(first_line(s@, i as int)),
{
    let mut e = i;
    while e < s.len() && s[e] != 0x0a
        invariant
            i <= e <= s@.len(),
            line_end(s@, i as int) == line_end(s@, e as int),
        decreases s@.len() - e,
    {
        e = e + 1;
    }
    let stop = if e < s.len() && e > i && s[e - 1] == 0x0d {
        e - 1
    } else {
        e
    };
    let line = &s[i..stop];
    assert(line@ == first_line(s@, i as int));
    match string_from_utf8(line) {
        Some(t) => t,
        None => String::new(),
    }
}

/// Parses the whole input as a list of statements.
pub fn parse_from_slice(input: &[u8]) -> (r: ParseResult)
    requires
        input_fits(input@),
        !(spec_parse_from_slice(input@) is Abort),
    ensures
        parse_result_view(r) == spec_parse_from_slice(input@),
{
    match statement_list(input, 0) {
        Outcome::Done(i, x) => {
            if i == input.len() {
                ParseResult::Parsed(x)
            } else {
                ParseResult::Failed(ParseError { kind: ErrorKind::Custom(0), info: line_at(input, i) })
            }
        },
        Outcome::Error(Failure::Code(k)) => ParseResult::Failed(ParseError { kind: k, info: String::new() }),
        Outcome::Error(Failure::Position(k, p)) => {
            if p <= input.len() {
                ParseResult::Failed(ParseError { kind: k, info: line_at(input, p) })
            } else {
                proof {
                    assert(first_line(input@, p as int) =~= Seq::<u8>::empty());
                    assert(decode_utf8(Seq::<u8>::empty()) =~= Seq::<char>::empty()) by {
                        encode_utf8_decode_utf8(Seq::<char>::empty());
                    }
                }
                ParseResult::Failed(ParseError { kind: k, info: String::new() })
            }
        },
        Outcome::Incomplete(n) => ParseResult::Incomplete(Needed::Size(n)),
    }
}

/// Parses the whole input as `parse_from_slice` does, where the input is
/// known to have a result there: its offsets fit, it is well-formed UTF-8,
/// and no identifier ends inside a character.  Otherwise `None`.
pub fn parse_text(input: &[u8]) -> (r: Option<ParseResult>)
    ensures
        r is Some <==> (input_fits(input@) && crate::scan::spec_identifiers_are_text(input@)),
        r matches Some(x) ==> parse_result_view(x) == spec_parse_from_slice(input@),
{
    if input.len() > usize::MAX - 64 || !crate::scan::identifiers_are_text(input) {
        return None;
    }
    proof {
        crate::input_text::lemma_parse_has_result(input@);
    }
    Some(parse_from_slice(input))
}

} // verus!

