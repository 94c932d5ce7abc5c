//! Outcomes of running a parser at an offset of a byte input, and the
//! primitive recognisers (white space, fixed tags, single characters,
//! identifiers) that the grammar is built from.
//!
//! Offsets are absolute: a parser started at offset `p` of input `s` reports
//! the offset at which it stopped, the offset at which it failed, or the
//! offset up to which it would need input to decide.

use vstd::prelude::*;
use vstd::utf8::*;
use crate::text::{string_from_utf8, utf8_str};

verus! {

/// Kinds of parse failures.
#[derive(Clone, Copy, Debug, PartialEq, Eq, Structural)]
pub enum ErrorKind {
    /// A failure reported by the top level: input was left over.
    Custom(u32),
    /// A fixed tag did not match.
    Tag,
    /// A single character did not match.
    Char,
    /// No identifier character was found.
    TakeWhile1,
    /// No alternative matched.
    Alt,
    /// A repeated item consumed no input.
    Many0,
    /// A repetition of at least one item found none.
    Many1,
    /// A parser ran out of input where the input is complete.
    Complete,
    /// An identifier is not a keyword of the expected kind.
    AlphaNumeric,
}

/// A parse failure: its kind, and the offset at which it was raised where
/// there is one.
#[derive(Clone, Copy, Debug, PartialEq, Eq, Structural)]
pub enum Failure {
    Code(ErrorKind),
    Position(ErrorKind, usize),
}

/// How much more input a parser needs.
#[derive(Clone, Copy, Debug, PartialEq, Eq, Structural)]
pub enum Needed {
    Unknown,
    Size(usize),
}

/// The outcome of running a parser from an offset of the input.
#[derive(Debug, PartialEq)]
pub enum Outcome<T> {
    /// The parser stopped at the given offset with a value.
    Done(usize, T),
    /// The parser failed.
    Error(Failure),
    /// The parser needs the input to extend at least up to the given offset.
    Incomplete(usize),
}

/// The model of an `Outcome`.  `Abort` is the outcome of a parser that has
/// no result: it met an identifier that is not well-formed UTF-8, or it was
/// started outside the input.
pub enum SOutcome<V> {
    Done(int, V),
    Error(Failure),
    Incomplete(int),
    Abort,
}

impl<V> SOutcome<V> {
    pub open spec fn is_abort(self) -> bool {
        self is Abort
    }
}

/// The model of an outcome.
pub open spec fn outcome_view<T: DeepView>(o: Outcome<T>) -> SOutcome<T::V> {
    match o {
        Outcome::Done(q, v) => SOutcome::Done(q as int, v.deep_view()),
        Outcome::Error(f) => SOutcome::Error(f),
        Outcome::Incomplete(n) => SOutcome::Incomplete(n as int),
    }
}

/// Inputs whose offsets, and the offsets up to which a parser may ask for
/// more input, fit in a `usize`.
pub open spec fn input_fits(s: Seq<u8>) -> bool {
    s.len() + 64 <= usize::MAX
}

/// The bytes skipped as white space: space, tab, carriage return, line feed.
pub open spec fn is_space(b: u8) -> bool {
    b == 0x20 || b == 0x09 || b == 0x0d || b == 0x0a
}

/// The number of white space bytes starting at `p`.
pub open spec fn space_len(s: Seq<u8>, p: int) -> nat
    decreases s.len() - p,
{
    if 0 <= p < s.len() && is_space(s[p]) {
        1 + space_len(s, p + 1)
    } else {
        0
    }
}

/// The offset after the white space that starts at `p`.
pub open spec fn sp(s: Seq<u8>, p: int) -> int {
    p + space_len(s, p)
}

/// White space never runs past the end of the input, and skipping it twice
/// skips nothing more.
pub proof fn lemma_sp(s: Seq<u8>, p: int)
    requires
        0 <= p <= s.len(),
    ensures
        p <= sp(s, p) <= s.len(),
        sp(s, sp(s, p)) == sp(s, p),
        forall|i: int| p <= i < sp(s, p) ==> is_space(#[trigger] s[i]),
        sp(s, p) < s.len() ==> !is_space(s[sp(s, p)]),
    decreases s.len() - p,
{
    if p < s.len() && is_space(s[p]) {
        lemma_sp(s, p + 1);
    }
}

/// Skips the white space at `p`.
pub fn skip_space(s: &[u8], p: usize) -> (r: usize)
    requires
        p <= s@.len(),
    ensures
        r == sp(s@, p as int),
{
    let mut i = p;
    while i < s.len() && (s[i] == 0x20 || s[i] == 0x09 || s[i] == 0x0d || s[i] == 0x0a)
        invariant
            p <= i <= s@.len(),
            sp(s@, p as int) == sp(s@, i as int),
        decreases s@.len() - i,
    {
        i = i + 1;
    }
    i
}

/// Matching the fixed byte string `t` at `p`: it fails where the input
/// differs from `t`, and needs more input where the input is a strict
/// prefix of `t`.
pub open spec fn spec_tag(s: Seq<u8>, p: int, t: Seq<u8>) -> SOutcome<()> {
    if p < 0 || p > s.len() {
        SOutcome::Abort
    } else {
        let m = if s.len() - p < t.len() { s.len() - p } else { t.len() as int };
        if s.subrange(p, p + m) != t.subrange(0, m) {
            SOutcome::Error(Failure::Position(ErrorKind::Tag, p as usize))
        } else if m < t.len() {
            SOutcome::Incomplete(p + t.len())
        } else {
            SOutcome::Done(p + t.len(), ())
        }
    }
}

/// Matches the fixed byte string `t` at `p`.
pub fn tag_at(s: &[u8], p: usize, t: &[u8]) -> (r: Outcome<()>)
    requires
        p <= s@.len(),
        input_fits(s@),
        t@.len() <= 16,
    ensures
        outcome_view(r) == spec_tag(s@, p as int, t@),
        r matches Outcome::Done(q, _) ==> q == p + t@.len() && q <= s@.len(),
{
    let avail = s.len() - p;
    let m = if avail < t.len() { avail } else { t.len() };
    let mut i: usize = 0;
    while i < m
        invariant
            i <= m,
            m <= t@.len(),
            p <= s@.len(),
            input_fits(s@),
            m <= s@.len() - p,
            m == if s@.len() - p < t@.len() { s@.len() - p } else { t@.len() as int },
            forall|j: int| 0 <= j < i ==> s@[p + j] == t@[j],
        decreases m - i,
    {
        if s[p + i] != t[i] {
            assert(s@.subrange(p as int, p + m)[i as int] != t@.subrange(0, m as int)[i as int]);
            return Outcome::Error(Failure::Position(ErrorKind::Tag, p));
        }
        i = i + 1;
    }
    assert(s@.subrange(p as int, p + m) =~= t@.subrange(0, m as int));
    if m < t.len() {
        Outcome::Incomplete(p + t.len())
    } else {
        Outcome::Done(p + t.len(), ())
    }
}

/// Matching the single byte `c` at `p`.
pub open spec fn spec_char(s: Seq<u8>, p: int, c: u8) -> SOutcome<()> {
    if p < 0 || p > s.len() {
        SOutcome::Abort
    } else if p == s.len() {
        SOutcome::Incomplete(p + 1)
    } else if s[p] == c {
        SOutcome::Done(p + 1, ())
    } else {
        SOutcome::Error(Failure::Position(ErrorKind::Char, p as usize))
    }
}

/// Matches the single byte `c` at `p`.
pub fn char_at(s: &[u8], p: usize, c: u8) -> (r: Outcome<()>)
    requires
        p <= s@.len(),
        input_fits(s@),
    ensures
        outcome_view(r) == spec_char(s@, p as int, c),
        r matches Outcome::Done(q, _) ==> q == p + 1 && q <= s@.len(),
{
    if p == s.len() {
        Outcome::Incomplete(p + 1)
    } else if s[p] == c {
        Outcome::Done(p + 1, ())
    } else {
        Outcome::Error(Failure::Position(ErrorKind::Char, p))
    }
}

/// Bytes that may occur in an identifier: the underscore and every byte
/// that, read as a Latin-1 character, is alphabetic or numeric.
pub open spec fn is_identifier_byte(b: u8) -> bool {
    ||| 0x30 <= b <= 0x39
    ||| 0x41 <= b <= 0x5a
    ||| 0x61 <= b <= 0x7a
    ||| b == 0x5f
    ||| b == 0xaa || b == 0xb2 || b == 0xb3 || b == 0xb5 || b == 0xb9 || b == 0xba
    ||| 0xbc <= b <= 0xbe
    ||| 0xc0 <= b <= 0xd6
    ||| 0xd8 <= b <= 0xf6
    ||| 0xf8 <= b
}

/// Whether the byte `b` may occur in an identifier.
pub fn identifier_byte(b: u8) -> (r: bool)
    ensures
        r == is_identifier_byte(b),
{
    (0x30 <= b && b <= 0x39) || (0x41 <= b && b <= 0x5a) || (0x61 <= b && b <= 0x7a)
        || b == 0x5f || b == 0xaa || b == 0xb2 || b == 0xb3 || b == 0xb5 || b == 0xb9
        || b == 0xba || (0xbc <= b && b <= 0xbe) || (0xc0 <= b && b <= 0xd6) || (0xd8 <= b
        && b <= 0xf6) || 0xf8 <= b
}

/// The number of identifier bytes starting at `p`.
pub open spec fn ident_len(s: Seq<u8>, p: int) -> nat
    decreases s.len() - p,
{
    if 0 <= p < s.len() && is_identifier_byte(s[p]) {
        1 + ident_len(s, p + 1)
    } else {
        0
    }
}

/// An identifier at `p`: the longest non-empty run of identifier bytes,
/// read as UTF-8.  A run that is not well-formed UTF-8 has no result.
pub open spec fn spec_identifier(s: Seq<u8>, p: int) -> SOutcome<Seq<char>> {
    if p < 0 || p > s.len() {
        SOutcome::Abort
    } else if p == s.len() {
        SOutcome::Incomplete(p + 1)
    } else if ident_len(s, p) == 0 {
        SOutcome::Error(Failure::Position(ErrorKind::TakeWhile1, p as usize))
    } else if !valid_utf8(s.subrange(p, p + ident_len(s, p))) {
        SOutcome::Abort
    } else {
        SOutcome::Done(p + ident_len(s, p), decode_utf8(s.subrange(p, p + ident_len(s, p))))
    }
}

/// Reads the identifier at `p`.
pub fn identifier_at(s: &[u8], p: usize) -> (r: Outcome<String>)
    requires
        p <= s@.len(),
        input_fits(s@),
        !spec_identifier(s@, p as int).is_abort(),
    ensures
        outcome_view(r) == spec_identifier(s@, p as int),
        r matches Outcome::Done(q, _) ==> p < q <= s@.len(),
{
    if p == s.len() {
        return Outcome::Incomplete(p + 1);
    }
    let mut i = p;
    while i < s.len() && identifier_byte(s[i])
        invariant
            p <= i <= s@.len(),
            ident_len(s@, p as int) == (i - p) + ident_len(s@, i as int),
        decreases s@.len() - i,
    {
        i = i + 1;
    }
    if i == p {
        return Outcome::Error(Failure::Position(ErrorKind::TakeWhile1, p));
    }
    let run = &s[p..i];
    match string_from_utf8(run) {
        Some(name) => Outcome::Done(i, name),
        None => Outcome::Error(Failure::Position(ErrorKind::TakeWhile1, p)),
    }
}

} // verus!

verus! {

/// The model of an outcome whose value is its own model.
pub open spec fn outcome_plain<T>(o: Outcome<T>) -> SOutcome<T> {
    match o {
        Outcome::Done(q, v) => SOutcome::Done(q as int, v),
        Outcome::Error(f) => SOutcome::Error(f),
        Outcome::Incomplete(n) => SOutcome::Incomplete(n as int),
    }
}

/// A failed outcome carried over to another value type.
pub open spec fn fail<A, B>(o: SOutcome<A>) -> SOutcome<B> {
    match o {
        SOutcome::Error(f) => SOutcome::Error(f),
        SOutcome::Incomplete(n) => SOutcome::Incomplete(n),
        _ => SOutcome::Abort,
    }
}

/// A successful outcome followed by white space.
pub open spec fn trail<T>(s: Seq<u8>, o: SOutcome<T>) -> SOutcome<T> {
    match o {
        SOutcome::Done(q, v) => SOutcome::Done(sp(s, q), v),
        _ => o,
    }
}

/// Carries a failed outcome over to another value type.
pub fn fail_as<A, B>(o: Outcome<A>) -> (r: Outcome<B>)
    requires
        !(o is Done),
    ensures
        r matches Outcome::Error(f) ==> o == Outcome::<A>::Error(f),
        r matches Outcome::Incomplete(n) ==> o == Outcome::<A>::Incomplete(n),
        !(r is Done),
{
    match o {
        Outcome::Error(f) => Outcome::Error(f),
        Outcome::Incomplete(n) => Outcome::Incomplete(n),
        Outcome::Done(..) => Outcome::Error(Failure::Code(ErrorKind::Alt)),
    }
}

} // verus!

verus! {

/// Matching the one-byte tag `c` at `p`.
pub open spec fn spec_tag1(s: Seq<u8>, p: int, c: u8) -> SOutcome<()> {
    if p < 0 || p > s.len() {
        SOutcome::Abort
    } else if p == s.len() {
        SOutcome::Incomplete(p + 1)
    } else if s[p] == c {
        SOutcome::Done(p + 1, ())
    } else {
        SOutcome::Error(Failure::Position(ErrorKind::Tag, p as usize))
    }
}

/// Matches the one-byte tag `c` at `p`.
pub fn tag1_at(s: &[u8], p: usize, c: u8) -> (r: Outcome<()>)
    requires
        p <= s@.len(),
        input_fits(s@),
    ensures
        outcome_view(r) == spec_tag1(s@, p as int, c),
        r matches Outcome::Done(q, _) ==> q == p + 1 && q <= s@.len(),
{
    if p == s.len() {
        Outcome::Incomplete(p + 1)
    } else if s[p] == c {
        Outcome::Done(p + 1, ())
    } else {
        Outcome::Error(Failure::Position(ErrorKind::Tag, p))
    }
}

/// The keyword `abstract`.
pub open spec fn kw_abstract() -> Seq<u8> {
    seq![0x61u8, 0x62, 0x73, 0x74, 0x72, 0x61, 0x63, 0x74]
}

/// The keyword `macro`.
pub open spec fn kw_macro() -> Seq<u8> {
    seq![0x6du8, 0x61, 0x63, 0x72, 0x6f]
}

/// The keyword `if`.
pub open spec fn kw_if() -> Seq<u8> {
    seq![0x69u8, 0x66]
}

/// The keyword `else`.
pub open spec fn kw_else() -> Seq<u8> {
    seq![0x65u8, 0x6c, 0x73, 0x65]
}

/// The keyword `elseif`.
pub open spec fn kw_elseif() -> Seq<u8> {
    seq![0x65u8, 0x6c, 0x73, 0x65, 0x69, 0x66]
}

/// The keywords that statements begin with.
#[derive(Clone, Copy, Debug, PartialEq, Eq, Structural)]
pub enum StatementKeyword {
    Abstract,
    Macro,
    If,
    Else,
    ElseIf,
}

/// The spelling of a statement keyword.
pub open spec fn statement_keyword(k: StatementKeyword) -> Seq<u8> {
    match k {
        StatementKeyword::Abstract => kw_abstract(),
        StatementKeyword::Macro => kw_macro(),
        StatementKeyword::If => kw_if(),
        StatementKeyword::Else => kw_else(),
        StatementKeyword::ElseIf => kw_elseif(),
    }
}

/// The bytes of a statement keyword.
pub fn keyword_bytes(k: StatementKeyword) -> (r: Vec<u8>)
    ensures
        r@ == statement_keyword(k),
        r@.len() <= 16,
{
    let mut v: Vec<u8> = Vec::new();
    match k {
        StatementKeyword::Abstract => {
            v.push(0x61); v.push(0x62); v.push(0x73); v.push(0x74);
            v.push(0x72); v.push(0x61); v.push(0x63); v.push(0x74);
            assert(v@ =~= kw_abstract());
        },
        StatementKeyword::Macro => {
            v.push(0x6d); v.push(0x61); v.push(0x63); v.push(0x72); v.push(0x6f);
            assert(v@ =~= kw_macro());
        },
        StatementKeyword::If => {
            v.push(0x69); v.push(0x66);
            assert(v@ =~= kw_if());
        },
        StatementKeyword::Else => {
            v.push(0x65); v.push(0x6c); v.push(0x73); v.push(0x65);
            assert(v@ =~= kw_else());
        },
        StatementKeyword::ElseIf => {
            v.push(0x65); v.push(0x6c); v.push(0x73); v.push(0x65); v.push(0x69); v.push(0x66);
            assert(v@ =~= kw_elseif());
        },
    }
    v
}

/// Matching the two-byte operator `c c` at `p`.
pub open spec fn spec_tag2(s: Seq<u8>, p: int, c: u8) -> SOutcome<()> {
    spec_tag(s, p, seq![c, c])
}

/// Matches the two-byte operator `c c` at `p`.
pub fn tag2_at(s: &[u8], p: usize, c: u8) -> (r: Outcome<()>)
    requires
        p <= s@.len(),
        input_fits(s@),
    ensures
        outcome_view(r) == spec_tag2(s@, p as int, c),
        r matches Outcome::Done(q, _) ==> q == p + 2 && q <= s@.len(),
{
    let mut t: Vec<u8> = Vec::new();
    t.push(c);
    t.push(c);
    assert(t@ =~= seq![c, c]);
    tag_at(s, p, t.as_slice())
}

} // verus!

verus! {

/// Whether `b` continues a character in UTF-8.
pub open spec fn is_continuation(b: u8) -> bool {
    0x80 <= b <= 0xbf
}

/// The input is well-formed UTF-8, and no run of identifier bytes ends
/// just before a byte that continues a character: a run that starts at a
/// character boundary then ends at one too.
pub open spec fn spec_identifiers_are_text(s: Seq<u8>) -> bool {
    &&& valid_utf8(s)
    &&& forall|i: int|
        0 <= i < s.len() - 1 ==> !(is_identifier_byte(#[trigger] s[i]) && !is_identifier_byte(
            s[i + 1],
        ) && is_continuation(s[i + 1]))
}

/// Decides `spec_identifiers_are_text`.
pub fn identifiers_are_text(s: &[u8]) -> (r: bool)
    ensures
        r == spec_identifiers_are_text(s@),
{
    if utf8_str(s).is_none() {
        return false;
    }
    let n = s.len();
    let mut i: usize = 0;
    while i < n && i + 1 < n
        invariant
            n == s@.len(),
            i <= n,
            n > 0 ==> i < n,
            forall|j: int|
                0 <= j < i && j < s@.len() - 1 ==> !(is_identifier_byte(#[trigger] s@[j])
                    && !is_identifier_byte(s@[j + 1]) && is_continuation(s@[j + 1])),
        decreases n - i,
    {
        if identifier_byte(s[i]) && !identifier_byte(s[i + 1]) && 0x80 <= s[i + 1] && s[i + 1]
            <= 0xbf {
            return false;
        }
        i = i + 1;
    }
    true
}

} // verus!

