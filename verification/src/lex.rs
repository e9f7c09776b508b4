//! Lexical layer: byte classes, keyword tags, trivia (whitespace and
//! comments), and name tokens.
//!
//! Every reader here mirrors a spec function over the input's byte sequence;
//! the spec functions are the grammar's reference definition.
use vstd::prelude::*;
use crate::err::{Ctx, PErr, fail_at};

verus! {

/// A parse result at the specification level: either a value together with
/// the remaining input, or a located failure.
pub enum PRes<V> {
    Parsed(Seq<u8>, V),
    NoParse(PErr),
}

/// How an executable parser's result corresponds to its specification.
pub open spec fn out_matches<T: DeepView>(r: Result<(&[u8], T), PErr>, s: PRes<T::V>) -> bool {
    match r {
        Ok(p) => s matches PRes::Parsed(srest, sv) && p.0@ == srest && p.1.deep_view() == sv,
        Err(e) => s matches PRes::NoParse(se) && e == se,
    }
}

/// A `Vec<u8>` and its view hold the same bytes, whichever way they are read.
pub broadcast proof fn lemma_bytes_deep_view(v: Vec<u8>)
    ensures
        #[trigger] v.deep_view() == v@,
{
    assert(v.deep_view() =~= v@);
}

// ---------------------------------------------------------------------------
// Byte classes
// ---------------------------------------------------------------------------

/// The byte classes the grammar scans over.
#[derive(Clone, Copy, Debug, PartialEq, Eq, Structural)]
pub enum CharClass {
    /// Space, tab, carriage return, line feed.
    Ws,
    /// ASCII letters.
    Alpha,
    /// ASCII letters and digits.
    Alnum,
    /// Characters of a plain or scoped name: letters, `_`, `.`.
    NameChar,
    /// Characters of a method name: letters, digits, `_`.
    MethodChar,
    /// Decimal digits.
    Digit,
    /// Digits of a decimal literal: decimal digits, `-`, `_`.
    DecNum,
    /// Digits of a hexadecimal literal, with `_` separators.
    HexNum,
    /// Digits of an octal literal, with `_` separators.
    OctNum,
    /// Digits of a binary literal, with `_` separators.
    BinNum,
    /// Digits of a float's decimal run: decimal digits and `_`.
    FloatNum,
    /// The operator symbol alphabet.
    OpSym,
    /// Any byte but a closing parenthesis.
    NotRParen,
    /// Any byte but a double quote.
    NotQuote,
}

pub open spec fn is_ascii_letter(b: u8) -> bool {
    ('a' as u8) <= b <= ('z' as u8) || ('A' as u8) <= b <= ('Z' as u8)
}

pub open spec fn is_ascii_digit(b: u8) -> bool {
    ('0' as u8) <= b <= ('9' as u8)
}

/// Whether byte `b` belongs to class `k`.
pub open spec fn in_class(k: CharClass, b: u8) -> bool {
    match k {
        CharClass::Ws => b == (' ' as u8) || b == ('\t' as u8) || b == ('\r' as u8) || b == (
        '\n' as u8),
        CharClass::Alpha => is_ascii_letter(b),
        CharClass::Alnum => is_ascii_letter(b) || is_ascii_digit(b),
        CharClass::NameChar => is_ascii_letter(b) || b == ('_' as u8) || b == ('.' as u8),
        CharClass::MethodChar => is_ascii_letter(b) || is_ascii_digit(b) || b == ('_' as u8),
        CharClass::Digit => is_ascii_digit(b),
        CharClass::DecNum => is_ascii_digit(b) || b == ('-' as u8) || b == ('_' as u8),
        CharClass::HexNum => is_ascii_digit(b) || ('a' as u8) <= b <= ('f' as u8) || (
        'A' as u8) <= b <= ('F' as u8) || b == ('_' as u8),
        CharClass::OctNum => ('0' as u8) <= b <= ('7' as u8) || b == ('_' as u8),
        CharClass::BinNum => b == ('0' as u8) || b == ('1' as u8) || b == ('_' as u8),
        CharClass::FloatNum => is_ascii_digit(b) || b == ('_' as u8),
        CharClass::OpSym => b == ('=' as u8) || b == ('!' as u8) || b == ('~' as u8) || b == (
        '|' as u8) || b == ('&' as u8) || b == ('^' as u8) || b == ('%' as u8) || b == (
        '+' as u8) || b == ('-' as u8) || b == ('*' as u8) || b == ('/' as u8) || b == (
        '<' as u8) || b == ('>' as u8) || b == ('.' as u8),
        CharClass::NotRParen => b != (')' as u8),
        CharClass::NotQuote => b != ('"' as u8),
    }
}

/// Whether byte `b` belongs to class `k`.
pub fn class_matches(k: CharClass, b: u8) -> (r: bool)
    ensures
        r == in_class(k, b),
{
    match k {
        CharClass::Ws => b == (' ' as u8) || b == ('\t' as u8) || b == ('\r' as u8) || b == (
        '\n' as u8),
        CharClass::Alpha => ('a' as u8) <= b && b <= ('z' as u8) || ('A' as u8) <= b && b <= (
        'Z' as u8),
        CharClass::Alnum => ('a' as u8) <= b && b <= ('z' as u8) || ('A' as u8) <= b && b <= (
        'Z' as u8) || ('0' as u8) <= b && b <= ('9' as u8),
        CharClass::NameChar => ('a' as u8) <= b && b <= ('z' as u8) || ('A' as u8) <= b && b <= (
        'Z' as u8) || b == ('_' as u8) || b == ('.' as u8),
        CharClass::MethodChar => ('a' as u8) <= b && b <= ('z' as u8) || ('A' as u8) <= b && b <= (
        'Z' as u8) || ('0' as u8) <= b && b <= ('9' as u8) || b == ('_' as u8),
        CharClass::Digit => ('0' as u8) <= b && b <= ('9' as u8),
        CharClass::DecNum => ('0' as u8) <= b && b <= ('9' as u8) || b == ('-' as u8) || b == (
        '_' as u8),
        CharClass::HexNum => ('0' as u8) <= b && b <= ('9' as u8) || ('a' as u8) <= b && b <= (
        'f' as u8) || ('A' as u8) <= b && b <= ('F' as u8) || b == ('_' as u8),
        CharClass::OctNum => ('0' as u8) <= b && b <= ('7' as u8) || b == ('_' as u8),
        CharClass::BinNum => b == ('0' as u8) || b == ('1' as u8) || b == ('_' as u8),
        CharClass::FloatNum => ('0' as u8) <= b && b <= ('9' as u8) || b == ('_' as u8),
        CharClass::OpSym => b == ('=' as u8) || b == ('!' as u8) || b == ('~' as u8) || b == (
        '|' as u8) || b == ('&' as u8) || b == ('^' as u8) || b == ('%' as u8) || b == (
        '+' as u8) || b == ('-' as u8) || b == ('*' as u8) || b == ('/' as u8) || b == (
        '<' as u8) || b == ('>' as u8) || b == ('.' as u8),
        CharClass::NotRParen => b != (')' as u8),
        CharClass::NotQuote => b != ('"' as u8),
    }
}

/// Length of the longest prefix of `s` whose bytes all belong to class `k`.
pub open spec fn scan_len(k: CharClass, s: Seq<u8>) -> nat
    decreases s.len(),
{
    if s.len() > 0 && in_class(k, s[0]) {
        1 + scan_len(k, s.skip(1))
    } else {
        0
    }
}

pub proof fn lemma_scan_le(k: CharClass, s: Seq<u8>)
    ensures
        scan_len(k, s) <= s.len(),
    decreases s.len(),
{
    if s.len() > 0 && in_class(k, s[0]) {
        lemma_scan_le(k, s.skip(1));
    }
}

/// Longest prefix of `i` within class `k`.
pub fn scan(i: &[u8], k: CharClass) -> (n: usize)
    ensures
        n == scan_len(k, i@),
        n <= i@.len(),
{
    proof {
        lemma_scan_le(k, i@);
    }
    let mut n: usize = 0;
    proof {
        assert(i@.skip(0) =~= i@);
    }
    while n < i.len() && class_matches(k, i[n])
        invariant
            0 <= n <= i@.len(),
            scan_len(k, i@) == n + scan_len(k, i@.skip(n as int)),
        decreases i@.len() - n,
    {
        proof {
            assert(i@.skip(n as int)[0] == i@[n as int]);
            assert(i@.skip(n as int).skip(1) =~= i@.skip(n as int + 1));
            lemma_scan_le(k, i@.skip(n as int + 1));
        }
        n += 1;
    }
    proof {
        if n < i@.len() {
            assert(i@.skip(n as int)[0] == i@[n as int]);
            assert(scan_len(k, i@.skip(n as int)) == 0);
        } else {
            assert(i@.skip(n as int).len() == 0);
            assert(scan_len(k, i@.skip(n as int)) == 0);
        }
    }
    n
}

// ---------------------------------------------------------------------------
// Single bytes
// ---------------------------------------------------------------------------

/// Whether `s` begins with byte `b`.
pub open spec fn at_byte(s: Seq<u8>, b: u8) -> bool {
    s.len() > 0 && s[0] == b
}

/// Consume a single expected byte.
pub fn eat_byte<'a>(i: &'a [u8], b: u8) -> (r: Option<&'a [u8]>)
    ensures
        match r {
            Some(rest) => at_byte(i@, b) && rest@ == i@.skip(1),
            None => !at_byte(i@, b),
        },
{
    if i.len() > 0 && i[0] == b {
        Some(vstd::slice::slice_subrange(i, 1, i.len()))
    } else {
        None
    }
}

// ---------------------------------------------------------------------------
// Keywords and fixed tokens
// ---------------------------------------------------------------------------

/// The fixed keywords and multi-byte tokens of the surface syntax.
#[derive(Clone, Copy, Debug, PartialEq, Eq, Structural)]
pub enum Kw {
    Struct,
    Trait,
    Impl,
    Enum,
    Func,
    Met,
    Get,
    SetKw,
    Let,
    If,
    Else,
    Loop,
    While,
    For,
    In,
    Break,
    Match,
    As,
    Mut,
    Dyn,
    SelfKw,
    DefaultKw,
    StrKw,
    TrueKw,
    FalseKw,
    Arrow,
    FatArrow,
    PathSep,
    DotDot,
    Hex0x,
    Hex0X,
    Oct0o,
    Oct0O,
    Bin0b,
    Bin0B,
    LineComment,
    BlockOpen,
    BlockClose,
    TyI8,
    TyI16,
    TyI32,
    TyI64,
    TyU8,
    TyU16,
    TyU32,
    TyU64,
    TyF32,
    TyF64,
    TyBool,
}

/// The token's length in bytes.
pub open spec fn kw_len(k: Kw) -> nat {
    match k {
        Kw::Struct => 6,
        Kw::Trait => 5,
        Kw::Impl => 4,
        Kw::Enum => 4,
        Kw::Func => 2,
        Kw::Met => 3,
        Kw::Get => 3,
        Kw::SetKw => 3,
        Kw::Let => 3,
        Kw::If => 2,
        Kw::Else => 4,
        Kw::Loop => 4,
        Kw::While => 5,
        Kw::For => 3,
        Kw::In => 2,
        Kw::Break => 5,
        Kw::Match => 5,
        Kw::As => 2,
        Kw::Mut => 3,
        Kw::Dyn => 3,
        Kw::SelfKw => 4,
        Kw::DefaultKw => 7,
        Kw::StrKw => 3,
        Kw::TrueKw => 4,
        Kw::FalseKw => 5,
        Kw::Arrow => 2,
        Kw::FatArrow => 2,
        Kw::PathSep => 2,
        Kw::DotDot => 2,
        Kw::Hex0x => 2,
        Kw::Hex0X => 2,
        Kw::Oct0o => 2,
        Kw::Oct0O => 2,
        Kw::Bin0b => 2,
        Kw::Bin0B => 2,
        Kw::LineComment => 2,
        Kw::BlockOpen => 2,
        Kw::BlockClose => 2,
        Kw::TyI8 => 2,
        Kw::TyI16 => 3,
        Kw::TyI32 => 3,
        Kw::TyI64 => 3,
        Kw::TyU8 => 2,
        Kw::TyU16 => 3,
        Kw::TyU32 => 3,
        Kw::TyU64 => 3,
        Kw::TyF32 => 3,
        Kw::TyF64 => 3,
        Kw::TyBool => 4,
    }
}

/// Whether `s` begins with the token `k`.
pub open spec fn kw_at(s: Seq<u8>, k: Kw) -> bool {
    let l = s.len();
    match k {
        Kw::Struct => l >= 6 && s[0] == ('s' as u8) && s[1] == ('t' as u8) && s[2] == ('r' as u8)
            && s[3] == ('u' as u8) && s[4] == ('c' as u8) && s[5] == ('t' as u8),
        Kw::Trait => l >= 5 && s[0] == ('t' as u8) && s[1] == ('r' as u8) && s[2] == ('a' as u8)
            && s[3] == ('i' as u8) && s[4] == ('t' as u8),
        Kw::Impl => l >= 4 && s[0] == ('i' as u8) && s[1] == ('m' as u8) && s[2] == ('p' as u8)
            && s[3] == ('l' as u8),
        Kw::Enum => l >= 4 && s[0] == ('e' as u8) && s[1] == ('n' as u8) && s[2] == ('u' as u8)
            && s[3] == ('m' as u8),
        Kw::Func => l >= 2 && s[0] == ('f' as u8) && s[1] == ('n' as u8),
        Kw::Met => l >= 3 && s[0] == ('m' as u8) && s[1] == ('e' as u8) && s[2] == ('t' as u8),
        Kw::Get => l >= 3 && s[0] == ('g' as u8) && s[1] == ('e' as u8) && s[2] == ('t' as u8),
        Kw::SetKw => l >= 3 && s[0] == ('s' as u8) && s[1] == ('e' as u8) && s[2] == ('t' as u8),
        Kw::Let => l >= 3 && s[0] == ('l' as u8) && s[1] == ('e' as u8) && s[2] == ('t' as u8),
        Kw::If => l >= 2 && s[0] == ('i' as u8) && s[1] == ('f' as u8),
        Kw::Else => l >= 4 && s[0] == ('e' as u8) && s[1] == ('l' as u8) && s[2] == ('s' as u8)
            && s[3] == ('e' as u8),
        Kw::Loop => l >= 4 && s[0] == ('l' as u8) && s[1] == ('o' as u8) && s[2] == ('o' as u8)
            && s[3] == ('p' as u8),
        Kw::While => l >= 5 && s[0] == ('w' as u8) && s[1] == ('h' as u8) && s[2] == ('i' as u8)
            && s[3] == ('l' as u8) && s[4] == ('e' as u8),
        Kw::For => l >= 3 && s[0] == ('f' as u8) && s[1] == ('o' as u8) && s[2] == ('r' as u8),
        Kw::In => l >= 2 && s[0] == ('i' as u8) && s[1] == ('n' as u8),
        Kw::Break => l >= 5 && s[0] == ('b' as u8) && s[1] == ('r' as u8) && s[2] == ('e' as u8)
            && s[3] == ('a' as u8) && s[4] == ('k' as u8),
        Kw::Match => l >= 5 && s[0] == ('m' as u8) && s[1] == ('a' as u8) && s[2] == ('t' as u8)
            && s[3] == ('c' as u8) && s[4] == ('h' as u8),
        Kw::As => l >= 2 && s[0] == ('a' as u8) && s[1] == ('s' as u8),
        Kw::Mut => l >= 3 && s[0] == ('m' as u8) && s[1] == ('u' as u8) && s[2] == ('t' as u8),
        Kw::Dyn => l >= 3 && s[0] == ('d' as u8) && s[1] == ('y' as u8) && s[2] == ('n' as u8),
        Kw::SelfKw => l >= 4 && s[0] == ('s' as u8) && s[1] == ('e' as u8) && s[2] == ('l' as u8)
            && s[3] == ('f' as u8),
        Kw::DefaultKw => l >= 7 && s[0] == ('d' as u8) && s[1] == ('e' as u8) && s[2] == (
        'f' as u8) && s[3] == ('a' as u8) && s[4] == ('u' as u8) && s[5] == ('l' as u8) && s[6]
            == ('t' as u8),
        Kw::StrKw => l >= 3 && s[0] == ('s' as u8) && s[1] == ('t' as u8) && s[2] == ('r' as u8),
        Kw::TrueKw => l >= 4 && s[0] == ('t' as u8) && s[1] == ('r' as u8) && s[2] == ('u' as u8)
            && s[3] == ('e' as u8),
        Kw::FalseKw => l >= 5 && s[0] == ('f' as u8) && s[1] == ('a' as u8) && s[2] == ('l' as u8)
            && s[3] == ('s' as u8) && s[4] == ('e' as u8),
        Kw::Arrow => l >= 2 && s[0] == ('-' as u8) && s[1] == ('>' as u8),
        Kw::FatArrow => l >= 2 && s[0] == ('=' as u8) && s[1] == ('>' as u8),
        Kw::PathSep => l >= 2 && s[0] == (':' as u8) && s[1] == (':' as u8),
        Kw::DotDot => l >= 2 && s[0] == ('.' as u8) && s[1] == ('.' as u8),
        Kw::Hex0x => l >= 2 && s[0] == ('0' as u8) && s[1] == ('x' as u8),
        Kw::Hex0X => l >= 2 && s[0] == ('0' as u8) && s[1] == ('X' as u8),
        Kw::Oct0o => l >= 2 && s[0] == ('0' as u8) && s[1] == ('o' as u8),
        Kw::Oct0O => l >= 2 && s[0] == ('0' as u8) && s[1] == ('O' as u8),
        Kw::Bin0b => l >= 2 && s[0] == ('0' as u8) && s[1] == ('b' as u8),
        Kw::Bin0B => l >= 2 && s[0] == ('0' as u8) && s[1] == ('B' as u8),
        Kw::LineComment => l >= 2 && s[0] == ('/' as u8) && s[1] == ('/' as u8),
        Kw::BlockOpen => l >= 2 && s[0] == ('/' as u8) && s[1] == ('*' as u8),
        Kw::BlockClose => l >= 2 && s[0] == ('*' as u8) && s[1] == ('/' as u8),
        Kw::TyI8 => l >= 2 && s[0] == ('i' as u8) && s[1] == ('8' as u8),
        Kw::TyI16 => l >= 3 && s[0] == ('i' as u8) && s[1] == ('1' as u8) && s[2] == ('6' as u8),
        Kw::TyI32 => l >= 3 && s[0] == ('i' as u8) && s[1] == ('3' as u8) && s[2] == ('2' as u8),
        Kw::TyI64 => l >= 3 && s[0] == ('i' as u8) && s[1] == ('6' as u8) && s[2] == ('4' as u8),
        Kw::TyU8 => l >= 2 && s[0] == ('u' as u8) && s[1] == ('8' as u8),
        Kw::TyU16 => l >= 3 && s[0] == ('u' as u8) && s[1] == ('1' as u8) && s[2] == ('6' as u8),
        Kw::TyU32 => l >= 3 && s[0] == ('u' as u8) && s[1] == ('3' as u8) && s[2] == ('2' as u8),
        Kw::TyU64 => l >= 3 && s[0] == ('u' as u8) && s[1] == ('6' as u8) && s[2] == ('4' as u8),
        Kw::TyF32 => l >= 3 && s[0] == ('f' as u8) && s[1] == ('3' as u8) && s[2] == ('2' as u8),
        Kw::TyF64 => l >= 3 && s[0] == ('f' as u8) && s[1] == ('6' as u8) && s[2] == ('4' as u8),
        Kw::TyBool => l >= 4 && s[0] == ('b' as u8) && s[1] == ('o' as u8) && s[2] == ('o' as u8)
            && s[3] == ('l' as u8),
    }
}

/// `s` cannot begin with a token longer than itself.
pub proof fn lemma_kw_at_len(s: Seq<u8>, k: Kw)
    ensures
        kw_at(s, k) ==> s.len() >= kw_len(k),
{
}

/// Whether the input begins with token `k`.
pub fn kw_matches(i: &[u8], k: Kw) -> (r: bool)
    ensures
        r == kw_at(i@, k),
{
    let l = i.len();
    match k {
        Kw::Struct => l >= 6 && i[0] == ('s' as u8) && i[1] == ('t' as u8) && i[2] == ('r' as u8)
            && i[3] == ('u' as u8) && i[4] == ('c' as u8) && i[5] == ('t' as u8),
        Kw::Trait => l >= 5 && i[0] == ('t' as u8) && i[1] == ('r' as u8) && i[2] == ('a' as u8)
            && i[3] == ('i' as u8) && i[4] == ('t' as u8),
        Kw::Impl => l >= 4 && i[0] == ('i' as u8) && i[1] == ('m' as u8) && i[2] == ('p' as u8)
            && i[3] == ('l' as u8),
        Kw::Enum => l >= 4 && i[0] == ('e' as u8) && i[1] == ('n' as u8) && i[2] == ('u' as u8)
            && i[3] == ('m' as u8),
        Kw::Func => l >= 2 && i[0] == ('f' as u8) && i[1] == ('n' as u8),
        Kw::Met => l >= 3 && i[0] == ('m' as u8) && i[1] == ('e' as u8) && i[2] == ('t' as u8),
        Kw::Get => l >= 3 && i[0] == ('g' as u8) && i[1] == ('e' as u8) && i[2] == ('t' as u8),
        Kw::SetKw => l >= 3 && i[0] == ('s' as u8) && i[1] == ('e' as u8) && i[2] == ('t' as u8),
        Kw::Let => l >= 3 && i[0] == ('l' as u8) && i[1] == ('e' as u8) && i[2] == ('t' as u8),
        Kw::If => l >= 2 && i[0] == ('i' as u8) && i[1] == ('f' as u8),
        Kw::Else => l >= 4 && i[0] == ('e' as u8) && i[1] == ('l' as u8) && i[2] == ('s' as u8)
            && i[3] == ('e' as u8),
        Kw::Loop => l >= 4 && i[0] == ('l' as u8) && i[1] == ('o' as u8) && i[2] == ('o' as u8)
            && i[3] == ('p' as u8),
        Kw::While => l >= 5 && i[0] == ('w' as u8) && i[1] == ('h' as u8) && i[2] == ('i' as u8)
            && i[3] == ('l' as u8) && i[4] == ('e' as u8),
        Kw::For => l >= 3 && i[0] == ('f' as u8) && i[1] == ('o' as u8) && i[2] == ('r' as u8),
        Kw::In => l >= 2 && i[0] == ('i' as u8) && i[1] == ('n' as u8),
        Kw::Break => l >= 5 && i[0] == ('b' as u8) && i[1] == ('r' as u8) && i[2] == ('e' as u8)
            && i[3] == ('a' as u8) && i[4] == ('k' as u8),
        Kw::Match => l >= 5 && i[0] == ('m' as u8) && i[1] == ('a' as u8) && i[2] == ('t' as u8)
            && i[3] == ('c' as u8) && i[4] == ('h' as u8),
        Kw::As => l >= 2 && i[0] == ('a' as u8) && i[1] == ('s' as u8),
        Kw::Mut => l >= 3 && i[0] == ('m' as u8) && i[1] == ('u' as u8) && i[2] == ('t' as u8),
        Kw::Dyn => l >= 3 && i[0] == ('d' as u8) && i[1] == ('y' as u8) && i[2] == ('n' as u8),
        Kw::SelfKw => l >= 4 && i[0] == ('s' as u8) && i[1] == ('e' as u8) && i[2] == ('l' as u8)
            && i[3] == ('f' as u8),
        Kw::DefaultKw => l >= 7 && i[0] == ('d' as u8) && i[1] == ('e' as u8) && i[2] == (
        'f' as u8) && i[3] == ('a' as u8) && i[4] == ('u' as u8) && i[5] == ('l' as u8) && i[6]
            == ('t' as u8),
        Kw::StrKw => l >= 3 && i[0] == ('s' as u8) && i[1] == ('t' as u8) && i[2] == ('r' as u8),
        Kw::TrueKw => l >= 4 && i[0] == ('t' as u8) && i[1] == ('r' as u8) && i[2] == ('u' as u8)
            && i[3] == ('e' as u8),
        Kw::FalseKw => l >= 5 && i[0] == ('f' as u8) && i[1] == ('a' as u8) && i[2] == ('l' as u8)
            && i[3] == ('s' as u8) && i[4] == ('e' as u8),
        Kw::Arrow => l >= 2 && i[0] == ('-' as u8) && i[1] == ('>' as u8),
        Kw::FatArrow => l >= 2 && i[0] == ('=' as u8) && i[1] == ('>' as u8),
        Kw::PathSep => l >= 2 && i[0] == (':' as u8) && i[1] == (':' as u8),
        Kw::DotDot => l >= 2 && i[0] == ('.' as u8) && i[1] == ('.' as u8),
        Kw::Hex0x => l >= 2 && i[0] == ('0' as u8) && i[1] == ('x' as u8),
        Kw::Hex0X => l >= 2 && i[0] == ('0' as u8) && i[1] == ('X' as u8),
        Kw::Oct0o => l >= 2 && i[0] == ('0' as u8) && i[1] == ('o' as u8),
        Kw::Oct0O => l >= 2 && i[0] == ('0' as u8) && i[1] == ('O' as u8),
        Kw::Bin0b => l >= 2 && i[0] == ('0' as u8) && i[1] == ('b' as u8),
        Kw::Bin0B => l >= 2 && i[0] == ('0' as u8) && i[1] == ('B' as u8),
        Kw::LineComment => l >= 2 && i[0] == ('/' as u8) && i[1] == ('/' as u8),
        Kw::BlockOpen => l >= 2 && i[0] == ('/' as u8) && i[1] == ('*' as u8),
        Kw::BlockClose => l >= 2 && i[0] == ('*' as u8) && i[1] == ('/' as u8),
        Kw::TyI8 => l >= 2 && i[0] == ('i' as u8) && i[1] == ('8' as u8),
        Kw::TyI16 => l >= 3 && i[0] == ('i' as u8) && i[1] == ('1' as u8) && i[2] == ('6' as u8),
        Kw::TyI32 => l >= 3 && i[0] == ('i' as u8) && i[1] == ('3' as u8) && i[2] == ('2' as u8),
        Kw::TyI64 => l >= 3 && i[0] == ('i' as u8) && i[1] == ('6' as u8) && i[2] == ('4' as u8),
        Kw::TyU8 => l >= 2 && i[0] == ('u' as u8) && i[1] == ('8' as u8),
        Kw::TyU16 => l >= 3 && i[0] == ('u' as u8) && i[1] == ('1' as u8) && i[2] == ('6' as u8),
        Kw::TyU32 => l >= 3 && i[0] == ('u' as u8) && i[1] == ('3' as u8) && i[2] == ('2' as u8),
        Kw::TyU64 => l >= 3 && i[0] == ('u' as u8) && i[1] == ('6' as u8) && i[2] == ('4' as u8),
        Kw::TyF32 => l >= 3 && i[0] == ('f' as u8) && i[1] == ('3' as u8) && i[2] == ('2' as u8),
        Kw::TyF64 => l >= 3 && i[0] == ('f' as u8) && i[1] == ('6' as u8) && i[2] == ('4' as u8),
        Kw::TyBool => l >= 4 && i[0] == ('b' as u8) && i[1] == ('o' as u8) && i[2] == ('o' as u8)
            && i[3] == ('l' as u8),
    }
}

/// What remains of `s` after token `k`, if `s` begins with it.
pub open spec fn spec_tag(s: Seq<u8>, k: Kw) -> Option<Seq<u8>> {
    if kw_at(s, k) {
        Some(s.skip(kw_len(k) as int))
    } else {
        None
    }
}

/// Consume the token `k` from the front of the input.
pub fn tag<'a>(i: &'a [u8], k: Kw) -> (r: Option<&'a [u8]>)
    ensures
        match r {
            Some(rest) => spec_tag(i@, k) matches Some(srest) && rest@ == srest,
            None => spec_tag(i@, k) is None,
        },
{
    if kw_matches(i, k) {
        proof {
            lemma_kw_at_len(i@, k);
        }
        let n: usize = match k {
            Kw::Struct => 6,
            Kw::Trait => 5,
            Kw::Impl => 4,
            Kw::Enum => 4,
            Kw::Func => 2,
            Kw::Met => 3,
            Kw::Get => 3,
            Kw::SetKw => 3,
            Kw::Let => 3,
            Kw::If => 2,
            Kw::Else => 4,
            Kw::Loop => 4,
            Kw::While => 5,
            Kw::For => 3,
            Kw::In => 2,
            Kw::Break => 5,
            Kw::Match => 5,
            Kw::As => 2,
            Kw::Mut => 3,
            Kw::Dyn => 3,
            Kw::SelfKw => 4,
            Kw::DefaultKw => 7,
            Kw::StrKw => 3,
            Kw::TrueKw => 4,
            Kw::FalseKw => 5,
            Kw::Arrow => 2,
            Kw::FatArrow => 2,
            Kw::PathSep => 2,
            Kw::DotDot => 2,
            Kw::Hex0x => 2,
            Kw::Hex0X => 2,
            Kw::Oct0o => 2,
            Kw::Oct0O => 2,
            Kw::Bin0b => 2,
            Kw::Bin0B => 2,
            Kw::LineComment => 2,
            Kw::BlockOpen => 2,
            Kw::BlockClose => 2,
            Kw::TyI8 => 2,
            Kw::TyI16 => 3,
            Kw::TyI32 => 3,
            Kw::TyI64 => 3,
            Kw::TyU8 => 2,
            Kw::TyU16 => 3,
            Kw::TyU32 => 3,
            Kw::TyU64 => 3,
            Kw::TyF32 => 3,
            Kw::TyF64 => 3,
            Kw::TyBool => 4,
        };
        Some(vstd::slice::slice_subrange(i, n, i.len()))
    } else {
        None
    }
}

// ---------------------------------------------------------------------------
// Trivia: whitespace and comments
// ---------------------------------------------------------------------------

/// Index of the first occurrence of byte `b` in `s`.
pub open spec fn find_byte(s: Seq<u8>, b: u8) -> Option<nat>
    decreases s.len(),
{
    if s.len() == 0 {
        None
    } else if s[0] == b {
        Some(0)
    } else {
        match find_byte(s.skip(1), b) {
            Some(k) => Some((k + 1) as nat),
            None => None,
        }
    }
}

pub proof fn lemma_find_byte_le(s: Seq<u8>, b: u8)
    ensures
        find_byte(s, b) matches Some(k) ==> k < s.len(),
    decreases s.len(),
{
    if s.len() > 0 && s[0] != b {
        lemma_find_byte_le(s.skip(1), b);
    }
}

/// Find the first occurrence of byte `b`.
pub fn find_byte_in(i: &[u8], b: u8) -> (r: Option<usize>)
    ensures
        match r {
            Some(n) => find_byte(i@, b) == Some(n as nat) && n < i@.len(),
            None => find_byte(i@, b) is None,
        },
{
    proof {
        lemma_find_byte_le(i@, b);
    }
    let mut n: usize = 0;
    proof {
        assert(i@.skip(0) =~= i@);
    }
    while n < i.len() && i[n] != b
        invariant
            0 <= n <= i@.len(),
            match find_byte(i@.skip(n as int), b) {
                Some(k) => find_byte(i@, b) == Some((k + n) as nat),
                None => find_byte(i@, b) is None,
            },
        decreases i@.len() - n,
    {
        proof {
            assert(i@.skip(n as int)[0] == i@[n as int]);
            assert(i@.skip(n as int).skip(1) =~= i@.skip(n as int + 1));
        }
        n += 1;
    }
    if n < i.len() {
        proof {
            assert(i@.skip(n as int)[0] == i@[n as int]);
        }
        Some(n)
    } else {
        proof {
            assert(i@.skip(n as int).len() == 0);
        }
        None
    }
}

/// Index of the first occurrence of the two-byte close marker `*/` in `s`.
pub open spec fn find_close(s: Seq<u8>) -> Option<nat>
    decreases s.len(),
{
    if s.len() < 2 {
        None
    } else if s[0] == ('*' as u8) && s[1] == ('/' as u8) {
        Some(0)
    } else {
        match find_close(s.skip(1)) {
            Some(k) => Some((k + 1) as nat),
            None => None,
        }
    }
}

pub proof fn lemma_find_close_le(s: Seq<u8>)
    ensures
        find_close(s) matches Some(k) ==> k + 2 <= s.len(),
    decreases s.len(),
{
    if s.len() >= 2 && !(s[0] == ('*' as u8) && s[1] == ('/' as u8)) {
        lemma_find_close_le(s.skip(1));
    }
}

/// Find the first occurrence of the close marker `*/`.
pub fn find_close_in(i: &[u8]) -> (r: Option<usize>)
    ensures
        match r {
            Some(n) => find_close(i@) == Some(n as nat) && n + 2 <= i@.len(),
            None => find_close(i@) is None,
        },
{
    proof {
        lemma_find_close_le(i@);
    }
    if i.len() < 2 {
        return None;
    }
    let mut n: usize = 0;
    proof {
        assert(i@.skip(0) =~= i@);
    }
    while n <= i.len() - 2 && !(i[n] == ('*' as u8) && i[n + 1] == ('/' as u8))
        invariant
            i@.len() >= 2,
            0 <= n,
            n + 2 <= i@.len() + 1,
            match find_close(i@.skip(n as int)) {
                Some(k) => find_close(i@) == Some((k + n) as nat),
                None => find_close(i@) is None,
            },
        decreases i@.len() - n,
    {
        proof {
            assert(i@.skip(n as int)[0] == i@[n as int]);
            assert(i@.skip(n as int)[1] == i@[n as int + 1]);
            assert(i@.skip(n as int).skip(1) =~= i@.skip(n as int + 1));
        }
        n += 1;
    }
    if n <= i.len() - 2 {
        proof {
            assert(i@.skip(n as int)[0] == i@[n as int]);
            assert(i@.skip(n as int)[1] == i@[n as int + 1]);
        }
        Some(n)
    } else {
        proof {
            assert(i@.skip(n as int).len() < 2);
        }
        None
    }
}

/// Bytes consumed by one comment at the front of `s`: a line comment running
/// to its newline, or a block comment running to its close marker. `None`
/// when no complete comment starts here.
pub open spec fn spec_comment(s: Seq<u8>) -> Option<nat> {
    if kw_at(s, Kw::LineComment) {
        match find_byte(s.skip(2), '\n' as u8) {
            Some(k) => Some((2 + k + 1) as nat),
            None => None,
        }
    } else if kw_at(s, Kw::BlockOpen) {
        match find_close(s.skip(2)) {
            Some(k) => Some((2 + k + 2) as nat),
            None => None,
        }
    } else {
        None
    }
}

pub proof fn lemma_comment_le(s: Seq<u8>)
    ensures
        spec_comment(s) matches Some(n) ==> 3 <= n <= s.len(),
{
    if kw_at(s, Kw::LineComment) {
        lemma_find_byte_le(s.skip(2), '\n' as u8);
    } else if kw_at(s, Kw::BlockOpen) {
        lemma_find_close_le(s.skip(2));
    }
}

/// Bytes consumed by one comment at the front of the input.
pub fn comment_len(i: &[u8]) -> (r: Option<usize>)
    ensures
        match r {
            Some(n) => spec_comment(i@) == Some(n as nat) && 3 <= n <= i@.len(),
            None => spec_comment(i@) is None,
        },
{
    proof {
        lemma_comment_le(i@);
    }
    if kw_matches(i, Kw::LineComment) {
        let rest = vstd::slice::slice_subrange(i, 2, i.len());
        match find_byte_in(rest, '\n' as u8) {
            Some(k) => Some(2 + k + 1),
            None => None,
        }
    } else if kw_matches(i, Kw::BlockOpen) {
        let rest = vstd::slice::slice_subrange(i, 2, i.len());
        match find_close_in(rest) {
            Some(k) => Some(2 + k + 2),
            None => None,
        }
    } else {
        None
    }
}

/// Bytes consumed by a run of comments, each followed by optional whitespace.
pub open spec fn spec_comments(s: Seq<u8>) -> nat
    decreases s.len(),
{
    match spec_comment(s) {
        Some(n) => {
            let m = n + scan_len(CharClass::Ws, s.skip(n as int));
            if 1 <= m <= s.len() {
                (m + spec_comments(s.skip(m as int))) as nat
            } else {
                0
            }
        },
        None => 0,
    }
}

pub proof fn lemma_comments_le(s: Seq<u8>)
    ensures
        spec_comments(s) <= s.len(),
    decreases s.len(),
{
    match spec_comment(s) {
        Some(n) => {
            let m = n + scan_len(CharClass::Ws, s.skip(n as int));
            if 1 <= m <= s.len() {
                lemma_comments_le(s.skip(m as int));
            }
        },
        None => {},
    }
}

/// Bytes consumed by optional whitespace followed by a run of comments: the
/// trivia that may stand between any two tokens.
pub open spec fn spec_blank(s: Seq<u8>) -> nat {
    let w = scan_len(CharClass::Ws, s);
    (w + spec_comments(s.skip(w as int))) as nat
}

pub proof fn lemma_blank_le(s: Seq<u8>)
    ensures
        spec_blank(s) <= s.len(),
{
    lemma_scan_le(CharClass::Ws, s);
    lemma_comments_le(s.skip(scan_len(CharClass::Ws, s) as int));
}

/// What remains of `s` once leading trivia is skipped.
pub open spec fn after_blank(s: Seq<u8>) -> Seq<u8> {
    s.skip(spec_blank(s) as int)
}

/// Skip leading trivia.
pub fn blank<'a>(i: &'a [u8]) -> (r: &'a [u8])
    ensures
        r@ == after_blank(i@),
        r@.len() <= i@.len(),
{
    proof {
        lemma_blank_le(i@);
        lemma_scan_le(CharClass::Ws, i@);
    }
    let w = scan(i, CharClass::Ws);
    let mut cur = vstd::slice::slice_subrange(i, w, i.len());
    proof {
        lemma_comments_le(cur@);
    }
    loop
        invariant
            cur@.len() <= i@.len(),
            spec_comments(cur@) <= cur@.len(),
            after_blank(i@) == cur@.skip(spec_comments(cur@) as int),
        decreases cur@.len(),
    {
        match comment_len(cur) {
            Some(n) => {
                proof {
                    lemma_scan_le(CharClass::Ws, cur@.skip(n as int));
                }
                let w2 = scan(vstd::slice::slice_subrange(cur, n, cur.len()), CharClass::Ws);
                let m = n + w2;
                proof {
                    assert(cur@.skip(n as int).skip(w2 as int) =~= cur@.skip(m as int));
                    assert(spec_comments(cur@) == m + spec_comments(cur@.skip(m as int)));
                    assert(cur@.skip(spec_comments(cur@) as int) =~= cur@.skip(m as int).skip(
                        spec_comments(cur@.skip(m as int)) as int,
                    ));
                    lemma_comments_le(cur@.skip(m as int));
                }
                cur = vstd::slice::slice_subrange(cur, m, cur.len());
            },
            None => {
                proof {
                    assert(spec_comments(cur@) == 0);
                    assert(cur@.skip(0) =~= cur@);
                }
                return cur;
            },
        }
    }
}

/// A parenthesized slice: the bytes between `(` and the first `)`, and what
/// follows that `)`. The inner bytes are handed to a sub-grammar of their
/// own; whatever that sub-grammar leaves unread is discarded.
pub open spec fn spec_paren_inner(s: Seq<u8>) -> Option<(Seq<u8>, Seq<u8>)> {
    if at_byte(s, '(' as u8) {
        let u = s.skip(1);
        let n = scan_len(CharClass::NotRParen, u);
        if n < u.len() {
            Some((u.take(n as int), s.skip(n as int + 2)))
        } else {
            None
        }
    } else {
        None
    }
}

/// Slice out a parenthesized region.
pub fn paren_inner<'a>(i: &'a [u8]) -> (r: Option<(&'a [u8], &'a [u8])>)
    ensures
        match r {
            Some(p) => spec_paren_inner(i@) matches Some(q) && p.0@ == q.0 && p.1@ == q.1
                && p.0@.len() < i@.len() && p.1@.len() < i@.len(),
            None => spec_paren_inner(i@) is None,
        },
{
    if i.len() > 0 && i[0] == ('(' as u8) {
        let u = vstd::slice::slice_subrange(i, 1, i.len());
        let n = scan(u, CharClass::NotRParen);
        if n < u.len() {
            Some(
                (
                    vstd::slice::slice_subrange(u, 0, n),
                    vstd::slice::slice_subrange(i, n + 2, i.len()),
                ),
            )
        } else {
            None
        }
    } else {
        None
    }
}

// ---------------------------------------------------------------------------
// Names
// ---------------------------------------------------------------------------

/// A plain or scoped variable name: leading trivia, then one or more
/// name characters (letters, `_`, `.`).
pub open spec fn spec_read_variable_name(s: Seq<u8>) -> PRes<Seq<u8>> {
    let t = after_blank(s);
    let n = scan_len(CharClass::NameChar, t);
    if n == 0 {
        PRes::NoParse(fail_at(Ctx::Token, t))
    } else {
        PRes::Parsed(t.skip(n as int), t.take(n as int))
    }
}

/// Read a plain or scoped variable name.
pub fn read_variable_name<'a>(i: &'a [u8]) -> (r: Result<(&'a [u8], Vec<u8>), PErr>)
    ensures
        out_matches(r, spec_read_variable_name(i@)),
{
    broadcast use lemma_bytes_deep_view;

    let t = blank(i);
    let n = scan(t, CharClass::NameChar);
    if n == 0 {
        Err(PErr { fatal: false, ctx: Ctx::Token, rem: t.len() })
    } else {
        let name = vstd::slice::slice_to_vec(vstd::slice::slice_subrange(t, 0, n));
        let rest = vstd::slice::slice_subrange(t, n, t.len());
        proof {
            assert(name@ =~= after_blank(i@).take(n as int));
        }
        Ok((rest, name))
    }
}

/// A struct or trait name: trivia, a run of letters and digits, trivia.
pub open spec fn spec_read_struct_or_trait_name(s: Seq<u8>) -> PRes<Seq<u8>> {
    let t = after_blank(s);
    let n = scan_len(CharClass::Alnum, t);
    if n == 0 {
        PRes::NoParse(fail_at(Ctx::Token, t))
    } else {
        PRes::Parsed(after_blank(t.skip(n as int)), t.take(n as int))
    }
}

/// Read a struct or trait name, skipping trivia on both sides.
pub fn read_struct_or_trait_name<'a>(i: &'a [u8]) -> (r: Result<(&'a [u8], Vec<u8>), PErr>)
    ensures
        out_matches(r, spec_read_struct_or_trait_name(i@)),
{
    broadcast use lemma_bytes_deep_view;

    let t = blank(i);
    let n = scan(t, CharClass::Alnum);
    if n == 0 {
        Err(PErr { fatal: false, ctx: Ctx::Token, rem: t.len() })
    } else {
        let name = vstd::slice::slice_to_vec(vstd::slice::slice_subrange(t, 0, n));
        let rest = blank(vstd::slice::slice_subrange(t, n, t.len()));
        proof {
            assert(name@ =~= after_blank(i@).take(n as int));
        }
        Ok((rest, name))
    }
}

/// A method or function name: trivia, a run of letters, digits and `_`,
/// trivia.
pub open spec fn spec_read_method_name(s: Seq<u8>) -> PRes<Seq<u8>> {
    let t = after_blank(s);
    let n = scan_len(CharClass::MethodChar, t);
    if n == 0 {
        PRes::NoParse(fail_at(Ctx::Token, t))
    } else {
        PRes::Parsed(after_blank(t.skip(n as int)), t.take(n as int))
    }
}

/// Read a method or function name, skipping trivia on both sides.
pub fn read_method_name<'a>(i: &'a [u8]) -> (r: Result<(&'a [u8], Vec<u8>), PErr>)
    ensures
        out_matches(r, spec_read_method_name(i@)),
{
    broadcast use lemma_bytes_deep_view;

    let t = blank(i);
    let n = scan(t, CharClass::MethodChar);
    if n == 0 {
        Err(PErr { fatal: false, ctx: Ctx::Token, rem: t.len() })
    } else {
        let name = vstd::slice::slice_to_vec(vstd::slice::slice_subrange(t, 0, n));
        let rest = blank(vstd::slice::slice_subrange(t, n, t.len()));
        proof {
            assert(name@ =~= after_blank(i@).take(n as int));
        }
        Ok((rest, name))
    }
}

} // verus!
