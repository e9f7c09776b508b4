//! The literal grammar: boolean, integer (multi-radix, typed), float, and
//! string constants.
//!
//! Float against integer is decided by trying the float surface grammar
//! first. Integers are then read by radix in priority order hexadecimal,
//! binary, octal, decimal; an optional whitespace-free primitive-type suffix
//! fixes the width and signedness, defaulting to 32-bit signed. A value out
//! of range for the resolved width, a boolean suffix, and unconvertible
//! digits are fatal.
use vstd::prelude::*;
use crate::ast::{NLOperation, NLType, OpConstant};
use crate::err::{Ctx, PErr, fail_at, fatal_at};
use crate::lex::{
    CharClass, Kw, PRes, after_blank, at_byte, blank, in_class, is_ascii_digit, kw_at, kw_matches,
    out_matches, scan, scan_len,
};
use crate::ty::spec_read_primitive_type;
use crate::ty::read_variable_type_primitive_no_whitespace;
use crate::views::{ConstV, OpV, TypeV};

verus! {

// ---------------------------------------------------------------------------
// Digit runs and their values
// ---------------------------------------------------------------------------

/// Numeric value of one digit byte, hexadecimal letters included.
pub open spec fn digit_val(b: u8) -> nat {
    if ('0' as u8) <= b <= ('9' as u8) {
        (b - ('0' as u8)) as nat
    } else if ('a' as u8) <= b <= ('f' as u8) {
        (b - ('a' as u8) + 10) as nat
    } else if ('A' as u8) <= b <= ('F' as u8) {
        (b - ('A' as u8) + 10) as nat
    } else {
        0
    }
}

/// Value of a digit run read left to right in the given radix, with `_`
/// separators ignored.
pub open spec fn digits_value(s: Seq<u8>, radix: nat) -> nat
    decreases s.len(),
{
    if s.len() == 0 {
        0
    } else {
        let v = digits_value(s.drop_last(), radix);
        if s.last() == ('_' as u8) {
            v
        } else {
            v * radix + digit_val(s.last())
        }
    }
}

/// A longer digit run never has a smaller value.
pub proof fn lemma_digits_value_mono(s: Seq<u8>, radix: nat, j: int)
    requires
        0 <= j <= s.len(),
        radix >= 1,
    ensures
        digits_value(s.take(j), radix) <= digits_value(s, radix),
    decreases s.len(),
{
    if j < s.len() {
        assert(s.drop_last().take(j) =~= s.take(j));
        lemma_digits_value_mono(s.drop_last(), radix, j);
        assert(digits_value(s.drop_last(), radix) * radix >= digits_value(s.drop_last(), radix))
            by (nonlinear_arith)
            requires radix >= 1, digits_value(s.drop_last(), radix) >= 0;
    } else {
        assert(s.take(j) =~= s);
    }
}

/// Whether the run holds at least one digit (`_` separators aside).
pub open spec fn has_digit(s: Seq<u8>) -> bool
    decreases s.len(),
{
    s.len() > 0 && (s.last() != ('_' as u8) && s.last() != ('-' as u8) || has_digit(s.drop_last()))
}

/// Whether the run holds a dash.
pub open spec fn has_dash(s: Seq<u8>) -> bool
    decreases s.len(),
{
    s.len() > 0 && (s.last() == ('-' as u8) || has_dash(s.drop_last()))
}

/// A dash anywhere in the run makes `has_dash` true.
pub proof fn lemma_has_dash_witness(s: Seq<u8>, k: int)
    requires
        0 <= k < s.len(),
        s[k] == ('-' as u8),
    ensures
        has_dash(s),
    decreases s.len(),
{
    if k < s.len() - 1 {
        lemma_has_dash_witness(s.drop_last(), k);
    }
}

/// The sign and magnitude spelled by an integer literal's text: an optional
/// leading dash, then digits with `_` separators. `None` when there is no
/// digit, or a dash stands anywhere but first.
pub open spec fn spec_int_value(text: Seq<u8>, radix: nat) -> Option<(bool, nat)> {
    let neg = text.len() > 0 && text[0] == ('-' as u8);
    let ds = if neg {
        text.skip(1)
    } else {
        text
    };
    if !has_digit(ds) || has_dash(ds) {
        None
    } else {
        Some((neg, digits_value(ds, radix)))
    }
}

/// Numeric value of one digit byte.
pub fn digit_val_x(b: u8) -> (d: u8)
    ensures
        d == digit_val(b),
        d <= 15,
{
    if ('0' as u8) <= b && b <= ('9' as u8) {
        b - ('0' as u8)
    } else if ('a' as u8) <= b && b <= ('f' as u8) {
        b - ('a' as u8) + 10
    } else if ('A' as u8) <= b && b <= ('F' as u8) {
        b - ('A' as u8) + 10
    } else {
        0
    }
}

/// Magnitude and sign of an integer literal's text; `Err` mirrors the
/// failures of `spec_int_value`, or reports a value above `u64::MAX`.
pub fn int_text_value(text: &[u8], radix: u64) -> (r: Result<(bool, u64), ()>)
    requires
        2 <= radix <= 16,
        forall|k: int| 0 <= k < text@.len() ==> digit_val(text@[k]) < radix,
    ensures
        match r {
            Ok(p) => spec_int_value(text@, radix as nat) == Some((p.0, p.1 as nat)),
            Err(_) => spec_int_value(text@, radix as nat) is None || (
            spec_int_value(text@, radix as nat) matches Some(p) && p.1 > u64::MAX),
        },
{
    let ghost whole = text@;
    let neg = text.len() > 0 && text[0] == ('-' as u8);
    let start: usize = if neg {
        1
    } else {
        0
    };
    let ghost ds = if neg {
        whole.skip(1)
    } else {
        whole
    };
    let mut acc: u64 = 0;
    let mut seen: bool = false;
    let mut j: usize = start;
    proof {
        assert(ds.take(0) =~= Seq::<u8>::empty());
    }
    while j < text.len()
        invariant
            start <= j <= text@.len(),
            start == if neg { 1int } else { 0int },
            neg == (text@.len() > 0 && text@[0] == ('-' as u8)),
            ds == if neg { text@.skip(1) } else { text@ },
            acc == digits_value(ds.take(j - start), radix as nat),
            seen == has_digit(ds.take(j - start)),
            !has_dash(ds.take(j - start)),
            2 <= radix <= 16,
            forall|k: int| 0 <= k < text@.len() ==> digit_val(text@[k]) < radix,
        decreases text@.len() - j,
    {
        let b = text[j];
        proof {
            assert(ds[j - start] == text@[j as int]);
            assert(ds.take(j - start + 1).drop_last() =~= ds.take(j - start));
            assert(ds.take(j - start + 1).last() == ds[j - start]);
        }
        if b == ('_' as u8) {
            // separator: value unchanged
        } else if b == ('-' as u8) {
            proof {
                lemma_has_dash_witness(ds, j - start);
                assert(has_dash(ds));
                assert(spec_int_value(text@, radix as nat) is None);
            }
            return Err(());
        } else {
            let d = digit_val_x(b);
            let next = match acc.checked_mul(radix) {
                Some(m) => m.checked_add(d as u64),
                None => None,
            };
            match next {
                Some(v) => {
                    proof {
                        assert(ds.take(j - start + 1)[j - start] == ds[j - start]);
                        assert(has_digit(ds.take(j - start + 1)));
                    }
                    acc = v;
                    seen = true;
                },
                None => {
                    proof {
                        assert(digits_value(ds.take(j - start + 1), radix as nat) == acc * radix
                            + digit_val(ds[j - start]));
                        lemma_digits_value_mono(ds, radix as nat, j - start + 1);
                        assert(digits_value(ds, radix as nat) > u64::MAX);
                    }
                    return Err(());
                },
            }
        }
        j += 1;
    }
    proof {
        assert(ds.take(text@.len() - start) =~= ds);
    }
    if !seen {
        Err(())
    } else {
        Ok((neg, acc))
    }
}

// ---------------------------------------------------------------------------
// Integer surface forms
// ---------------------------------------------------------------------------

/// Whether a radix-prefixed digit run starts here: nonempty, within the
/// class, and not led by a separator.
pub open spec fn run_ok(k: CharClass, s: Seq<u8>) -> bool {
    s.len() > 0 && in_class(k, s[0]) && s[0] != ('_' as u8)
}

/// The integer surface grammar: `(text, rest, radix)` for the first of
/// hexadecimal, binary, octal, decimal that matches.
pub open spec fn spec_parse_integer(s: Seq<u8>) -> Option<(Seq<u8>, Seq<u8>, nat)> {
    if (kw_at(s, Kw::Hex0x) || kw_at(s, Kw::Hex0X)) && run_ok(CharClass::HexNum, s.skip(2)) {
        let t = s.skip(2);
        let n = scan_len(CharClass::HexNum, t);
        Some((t.take(n as int), t.skip(n as int), 16))
    } else if (kw_at(s, Kw::Bin0b) || kw_at(s, Kw::Bin0B)) && run_ok(CharClass::BinNum, s.skip(2)) {
        let t = s.skip(2);
        let n = scan_len(CharClass::BinNum, t);
        Some((t.take(n as int), t.skip(n as int), 2))
    } else if (kw_at(s, Kw::Oct0o) || kw_at(s, Kw::Oct0O)) && run_ok(CharClass::OctNum, s.skip(2)) {
        let t = s.skip(2);
        let n = scan_len(CharClass::OctNum, t);
        Some((t.take(n as int), t.skip(n as int), 8))
    } else {
        let n = scan_len(CharClass::DecNum, s);
        if n > 0 && s[0] != ('_' as u8) {
            Some((s.take(n as int), s.skip(n as int), 10))
        } else {
            None
        }
    }
}

/// Digits of a class run are below their radix.
pub proof fn lemma_run_digits_below(k: CharClass, s: Seq<u8>, radix: nat)
    requires
        k is HexNum && radix == 16 || k is BinNum && radix == 2 || k is OctNum && radix == 8
            || k is DecNum && radix == 10,
    ensures
        forall|j: int|
            0 <= j < s.len() && in_class(k, s[j]) ==> digit_val(s[j]) < radix,
{
}

/// Everything in the scanned prefix belongs to the class.
pub proof fn lemma_scan_prefix_in_class(k: CharClass, s: Seq<u8>)
    ensures
        forall|j: int| 0 <= j < scan_len(k, s) ==> in_class(k, #[trigger] s[j]),
    decreases s.len(),
{
    if s.len() > 0 && in_class(k, s[0]) {
        lemma_scan_prefix_in_class(k, s.skip(1));
        crate::lex::lemma_scan_le(k, s.skip(1));
        assert forall|j: int| 0 <= j < scan_len(k, s) implies in_class(k, s[j]) by {
            if j > 0 {
                assert(0 <= j - 1 < scan_len(k, s.skip(1)));
                assert(s.skip(1)[j - 1] == s[j]);
            }
        }
    }
}

/// Read the integer surface form, if one starts here.
#[allow(unused_parens)]
pub fn parse_integer<'a>(i: &'a [u8]) -> (r: Option<(&'a [u8], &'a [u8], u64)>)
    ensures
        match r {
            Some(p) => spec_parse_integer(i@) matches Some(q) && p.0@ == q.0 && p.1@ == q.1 && (
            p.2 as nat) == q.2 && 2 <= p.2 <= 16,
            None => spec_parse_integer(i@) is None,
        },
{
    if (kw_matches(i, Kw::Hex0x) || kw_matches(i, Kw::Hex0X)) && {
        let t = vstd::slice::slice_subrange(i, 2, i.len());
        t.len() > 0 && crate::lex::class_matches(CharClass::HexNum, t[0]) && t[0] != ('_' as u8)
    } {
        let t = vstd::slice::slice_subrange(i, 2, i.len());
        let n = scan(t, CharClass::HexNum);
        Some(
            (
                vstd::slice::slice_subrange(t, 0, n),
                vstd::slice::slice_subrange(t, n, t.len()),
                16,
            ),
        )
    } else if (kw_matches(i, Kw::Bin0b) || kw_matches(i, Kw::Bin0B)) && {
        let t = vstd::slice::slice_subrange(i, 2, i.len());
        t.len() > 0 && crate::lex::class_matches(CharClass::BinNum, t[0]) && t[0] != ('_' as u8)
    } {
        let t = vstd::slice::slice_subrange(i, 2, i.len());
        let n = scan(t, CharClass::BinNum);
        Some(
            (
                vstd::slice::slice_subrange(t, 0, n),
                vstd::slice::slice_subrange(t, n, t.len()),
                2,
            ),
        )
    } else if (kw_matches(i, Kw::Oct0o) || kw_matches(i, Kw::Oct0O)) && {
        let t = vstd::slice::slice_subrange(i, 2, i.len());
        t.len() > 0 && crate::lex::class_matches(CharClass::OctNum, t[0]) && t[0] != ('_' as u8)
    } {
        let t = vstd::slice::slice_subrange(i, 2, i.len());
        let n = scan(t, CharClass::OctNum);
        Some(
            (
                vstd::slice::slice_subrange(t, 0, n),
                vstd::slice::slice_subrange(t, n, t.len()),
                8,
            ),
        )
    } else {
        let n = scan(i, CharClass::DecNum);
        if n > 0 && i[0] != ('_' as u8) {
            Some(
                (
                    vstd::slice::slice_subrange(i, 0, n),
                    vstd::slice::slice_subrange(i, n, i.len()),
                    10,
                ),
            )
        } else {
            None
        }
    }
}

// ---------------------------------------------------------------------------
// Float surface forms
// ---------------------------------------------------------------------------

/// A decimal digit run within a float: nonempty, digits and `_`, led by a
/// digit. Yields the run's length.
pub open spec fn spec_float_digits(s: Seq<u8>) -> Option<nat> {
    let n = scan_len(CharClass::FloatNum, s);
    if n > 0 && is_ascii_digit(s[0]) {
        Some(n)
    } else {
        None
    }
}

/// An exponent: `e` or `E`, an optional sign, then digits. Yields the
/// consumed length.
pub open spec fn spec_float_exp(s: Seq<u8>) -> Option<nat> {
    if s.len() > 0 && (s[0] == ('e' as u8) || s[0] == ('E' as u8)) {
        let s1 = s.skip(1);
        let sgn: nat = if s1.len() > 0 && (s1[0] == ('+' as u8) || s1[0] == ('-' as u8)) {
            1
        } else {
            0
        };
        match spec_float_digits(s1.skip(sgn as int)) {
            Some(n) => Some((1 + sgn + n) as nat),
            None => None,
        }
    } else {
        None
    }
}

/// First float form: optional sign, a point, digits, optional exponent.
pub open spec fn spec_float_alt1(s: Seq<u8>) -> Option<nat> {
    let sgn: nat = if at_byte(s, '-' as u8) {
        1
    } else {
        0
    };
    let s1 = s.skip(sgn as int);
    if at_byte(s1, '.' as u8) {
        match spec_float_digits(s1.skip(1)) {
            Some(n) => {
                let base = (sgn + 1 + n) as nat;
                match spec_float_exp(s.skip(base as int)) {
                    Some(m) => Some((base + m) as nat),
                    None => Some(base),
                }
            },
            None => None,
        }
    } else {
        None
    }
}

/// Second float form: optional sign, digits, an optional fraction, then a
/// mandatory exponent.
pub open spec fn spec_float_alt2(s: Seq<u8>) -> Option<nat> {
    let sgn: nat = if at_byte(s, '-' as u8) {
        1
    } else {
        0
    };
    let s1 = s.skip(sgn as int);
    match spec_float_digits(s1) {
        Some(n1) => {
            let s2 = s1.skip(n1 as int);
            let frac: nat = if at_byte(s2, '.' as u8) {
                match spec_float_digits(s2.skip(1)) {
                    Some(n2) => (1 + n2) as nat,
                    None => 0,
                }
            } else {
                0
            };
            let base = (sgn + n1 + frac) as nat;
            match spec_float_exp(s.skip(base as int)) {
                Some(m) => Some((base + m) as nat),
                None => None,
            }
        },
        None => None,
    }
}

/// Third float form: optional sign, digits, a point, optional digits.
pub open spec fn spec_float_alt3(s: Seq<u8>) -> Option<nat> {
    let sgn: nat = if at_byte(s, '-' as u8) {
        1
    } else {
        0
    };
    let s1 = s.skip(sgn as int);
    match spec_float_digits(s1) {
        Some(n1) => {
            let s2 = s1.skip(n1 as int);
            if at_byte(s2, '.' as u8) {
                match spec_float_digits(s2.skip(1)) {
                    Some(n2) => Some((sgn + n1 + 1 + n2) as nat),
                    None => Some((sgn + n1 + 1) as nat),
                }
            } else {
                None
            }
        },
        None => None,
    }
}

/// The float surface grammar: the three forms in priority order. Yields the
/// length of the matched text.
pub open spec fn spec_parse_float(s: Seq<u8>) -> Option<nat> {
    match spec_float_alt1(s) {
        Some(n) => Some(n),
        None => match spec_float_alt2(s) {
            Some(n) => Some(n),
            None => spec_float_alt3(s),
        },
    }
}

/// Length of the float digit run starting here, if any.
fn float_digits(i: &[u8]) -> (r: Option<usize>)
    ensures
        match r {
            Some(n) => spec_float_digits(i@) == Some(n as nat) && 0 < n <= i@.len(),
            None => spec_float_digits(i@) is None,
        },
{
    let n = scan(i, CharClass::FloatNum);
    if n > 0 && i[0] >= ('0' as u8) && i[0] <= ('9' as u8) {
        Some(n)
    } else {
        None
    }
}

/// Length of the exponent starting here, if any.
fn float_exp(i: &[u8]) -> (r: Option<usize>)
    ensures
        match r {
            Some(n) => spec_float_exp(i@) == Some(n as nat) && 0 < n <= i@.len(),
            None => spec_float_exp(i@) is None,
        },
{
    if i.len() > 0 && (i[0] == ('e' as u8) || i[0] == ('E' as u8)) {
        let s1 = vstd::slice::slice_subrange(i, 1, i.len());
        let sgn: usize = if s1.len() > 0 && (s1[0] == ('+' as u8) || s1[0] == ('-' as u8)) {
            1
        } else {
            0
        };
        match float_digits(vstd::slice::slice_subrange(s1, sgn, s1.len())) {
            Some(n) => Some(1 + sgn + n),
            None => None,
        }
    } else {
        None
    }
}

/// Length of the float literal starting here, if any.
pub fn parse_float(i: &[u8]) -> (r: Option<usize>)
    ensures
        match r {
            Some(n) => spec_parse_float(i@) == Some(n as nat) && 0 < n <= i@.len(),
            None => spec_parse_float(i@) is None,
        },
{
    let sgn: usize = if i.len() > 0 && i[0] == ('-' as u8) {
        1
    } else {
        0
    };
    let s1 = vstd::slice::slice_subrange(i, sgn, i.len());
    // first form
    let alt1: Option<usize> = if s1.len() > 0 && s1[0] == ('.' as u8) {
        match float_digits(vstd::slice::slice_subrange(s1, 1, s1.len())) {
            Some(n) => {
                let base = sgn + 1 + n;
                match float_exp(vstd::slice::slice_subrange(i, base, i.len())) {
                    Some(m) => Some(base + m),
                    None => Some(base),
                }
            },
            None => None,
        }
    } else {
        None
    };
    if let Some(n) = alt1 {
        return Some(n);
    }
    // second and third forms share their prefix
    match float_digits(s1) {
        Some(n1) => {
            let s2 = vstd::slice::slice_subrange(s1, n1, s1.len());
            let frac: usize = if s2.len() > 0 && s2[0] == ('.' as u8) {
                match float_digits(vstd::slice::slice_subrange(s2, 1, s2.len())) {
                    Some(n2) => 1 + n2,
                    None => 0,
                }
            } else {
                0
            };
            let base = sgn + n1 + frac;
            match float_exp(vstd::slice::slice_subrange(i, base, i.len())) {
                Some(m) => Some(base + m),
                None => {
                    // third form: the fraction's point is mandatory there
                    if s2.len() > 0 && s2[0] == ('.' as u8) {
                        match float_digits(vstd::slice::slice_subrange(s2, 1, s2.len())) {
                            Some(n2) => Some(sgn + n1 + 1 + n2),
                            None => Some(sgn + n1 + 1),
                        }
                    } else {
                        None
                    }
                },
            }
        },
        None => None,
    }
}

// ---------------------------------------------------------------------------
// Numeric constants
// ---------------------------------------------------------------------------

/// Whether the view names a signed integer scalar type.
pub open spec fn type_v_is_signed(t: TypeV) -> bool {
    t is I8 || t is I16 || t is I32 || t is I64
}

/// The value range of each integer scalar width; everything else is
/// unconstrained.
pub open spec fn type_v_range_ok(v: int, t: TypeV) -> bool {
    match t {
        TypeV::I8 => -128 <= v <= 127,
        TypeV::I16 => -32768 <= v <= 32767,
        TypeV::I32 => -2147483648 <= v <= 2147483647,
        TypeV::I64 => -9223372036854775808 <= v <= 9223372036854775807,
        TypeV::U8 => 0 <= v <= 255,
        TypeV::U16 => 0 <= v <= 65535,
        TypeV::U32 => 0 <= v <= 4294967295,
        TypeV::U64 => 0 <= v <= 18446744073709551615,
        _ => true,
    }
}

/// How the signedness and ranges of a type read through its view.
pub proof fn lemma_nl_type_view(t: &NLType)
    ensures
        type_v_is_signed(t.deep_view()) == t.spec_is_signed(),
        (t.deep_view() is Boolean) == (t is Boolean),
        (t.deep_view() is I8) == (t is I8),
        (t.deep_view() is I16) == (t is I16),
        (t.deep_view() is I32) == (t is I32),
        (t.deep_view() is I64) == (t is I64),
        (t.deep_view() is U8) == (t is U8),
        (t.deep_view() is U16) == (t is U16),
        (t.deep_view() is U32) == (t is U32),
        (t.deep_view() is U64) == (t is U64),
{
    match t {
        NLType::Unit => {},
        NLType::Boolean => {},
        NLType::I8 => {},
        NLType::I16 => {},
        NLType::I32 => {},
        NLType::I64 => {},
        NLType::U8 => {},
        NLType::U16 => {},
        NLType::U32 => {},
        NLType::U64 => {},
        NLType::F32 => {},
        NLType::F64 => {},
        NLType::OwnedString => {},
        NLType::BorrowedString => {},
        NLType::Tuple(..) => {},
        NLType::OwnedStruct(..) => {},
        NLType::ReferencedStruct(..) => {},
        NLType::MutableReferencedStruct(..) => {},
        NLType::OwnedTrait(..) => {},
        NLType::ReferencedTrait(..) => {},
        NLType::MutableReferencedTrait(..) => {},
        NLType::Enum(..) => {},
        NLType::SelfReference => {},
        NLType::MutableSelfReference => {},
    }
}

/// Resolution of an integer literal's text against its radix and resolved
/// type: the container is signed 64-bit for signed widths and unsigned
/// 64-bit otherwise; a value out of the container or out of the resolved
/// width is fatal, as are unconvertible digits.
pub open spec fn spec_finish_integer(text: Seq<u8>, radix: nat, rest: Seq<u8>, t: TypeV) -> PRes<
    ConstV,
> {
    match spec_int_value(text, radix) {
        Some(p) => {
            let v: int = if p.0 {
                -(p.1 as int)
            } else {
                p.1 as int
            };
            if type_v_is_signed(t) {
                if !(-9223372036854775808 <= v <= 9223372036854775807) {
                    // not a value the signed container can carry: no literal here
                    PRes::NoParse(fail_at(Ctx::IntegerValue, rest))
                } else if type_v_range_ok(v, t) {
                    PRes::Parsed(rest, ConstV::Signed(v as i64, t))
                } else {
                    PRes::NoParse(fatal_at(Ctx::IntegerValue, rest))
                }
            } else {
                // the container is unsigned: a sign, even on zero, is refused
                if p.0 || v > 18446744073709551615 {
                    PRes::NoParse(fail_at(Ctx::IntegerValue, rest))
                } else if type_v_range_ok(v, t) {
                    PRes::Parsed(rest, ConstV::Unsigned(v as u64, t))
                } else {
                    PRes::NoParse(fatal_at(Ctx::IntegerValue, rest))
                }
            }
        },
        None => PRes::NoParse(fail_at(Ctx::IntegerValue, rest)),
    }
}

/// The numeric constant grammar: float first, then integer, then the
/// optional whitespace-free type suffix; a boolean suffix is fatal.
pub open spec fn spec_read_numerical_constant(s: Seq<u8>) -> PRes<ConstV> {
    match spec_parse_float(s) {
        Some(flen) => {
            let text = s.take(flen as int);
            let rest = s.skip(flen as int);
            match spec_read_primitive_type(rest) {
                PRes::Parsed(rest2, t) => match t {
                    TypeV::F32 => PRes::Parsed(rest2, ConstV::Float32(text)),
                    TypeV::F64 => PRes::Parsed(rest2, ConstV::Float64(text)),
                    _ => PRes::NoParse(fail_at(Ctx::FractionalType, rest2)),
                },
                PRes::NoParse(_) => PRes::Parsed(rest, ConstV::Float32(text)),
            }
        },
        None => match spec_parse_integer(s) {
            Some(p) => {
                match spec_read_primitive_type(p.1) {
                    PRes::Parsed(rest2, t) => {
                        if t is Boolean {
                            PRes::NoParse(fatal_at(Ctx::NumberAsBoolean, rest2))
                        } else {
                            spec_finish_integer(p.0, p.2, rest2, t)
                        }
                    },
                    PRes::NoParse(_) => spec_finish_integer(p.0, p.2, p.1, TypeV::I32),
                }
            },
            None => PRes::NoParse(fail_at(Ctx::Token, s)),
        },
    }
}

/// Resolve an integer literal's text into a constant.
fn finish_integer<'a>(text: &[u8], radix: u64, rest: &'a [u8], t: NLType) -> (r: Result<
    (&'a [u8], OpConstant),
    PErr,
>)
    requires
        2 <= radix <= 16,
        forall|k: int| 0 <= k < text@.len() ==> digit_val(text@[k]) < radix,
    ensures
        out_matches(r, spec_finish_integer(text@, radix as nat, rest@, t.deep_view())),
{
    proof {
        lemma_nl_type_view(&t);
    }
    let signed = t.is_signed();
    match int_text_value(text, radix) {
        Ok((neg, mag)) => {
            if signed {
                let fits = if neg {
                    mag <= 9223372036854775808u64
                } else {
                    mag <= 9223372036854775807u64
                };
                if !fits {
                    return Err(PErr { fatal: false, ctx: Ctx::IntegerValue, rem: rest.len() });
                }
                let v: i64 = if neg {
                    if mag == 9223372036854775808u64 {
                        i64::MIN
                    } else {
                        -(mag as i64)
                    }
                } else {
                    mag as i64
                };
                let ok = match &t {
                    NLType::I8 => -128 <= v && v <= 127,
                    NLType::I16 => -32768 <= v && v <= 32767,
                    NLType::I32 => -2147483648 <= v && v <= 2147483647,
                    _ => true,
                };
                if ok {
                    Ok((rest, OpConstant::Signed(v, t)))
                } else {
                    Err(PErr { fatal: true, ctx: Ctx::IntegerValue, rem: rest.len() })
                }
            } else {
                if neg {
                    return Err(PErr { fatal: false, ctx: Ctx::IntegerValue, rem: rest.len() });
                }
                let ok = match &t {
                    NLType::U8 => mag <= 255,
                    NLType::U16 => mag <= 65535,
                    NLType::U32 => mag <= 4294967295,
                    _ => true,
                };
                if ok {
                    Ok((rest, OpConstant::Unsigned(mag, t)))
                } else {
                    Err(PErr { fatal: true, ctx: Ctx::IntegerValue, rem: rest.len() })
                }
            }
        },
        Err(_) => Err(PErr { fatal: false, ctx: Ctx::IntegerValue, rem: rest.len() }),
    }
}

/// Read a numeric constant: float first, then integer by radix, then the
/// optional type suffix.
pub fn read_numerical_constant<'a>(i: &'a [u8]) -> (r: Result<(&'a [u8], OpConstant), PErr>)
    ensures
        out_matches(r, spec_read_numerical_constant(i@)),
{
    broadcast use crate::lex::lemma_bytes_deep_view;

    match parse_float(i) {
        Some(flen) => {
            let text = vstd::slice::slice_to_vec(vstd::slice::slice_subrange(i, 0, flen));
            let rest = vstd::slice::slice_subrange(i, flen, i.len());
            match read_variable_type_primitive_no_whitespace(rest) {
                Ok((rest2, t)) => match t {
                    NLType::F32 => Ok((rest2, OpConstant::Float32(text))),
                    NLType::F64 => Ok((rest2, OpConstant::Float64(text))),
                    _ => Err(PErr { fatal: false, ctx: Ctx::FractionalType, rem: rest2.len() }),
                },
                Err(_) => Ok((rest, OpConstant::Float32(text))),
            }
        },
        None => match parse_integer(i) {
            Some((text, rest, radix)) => {
                proof {
                    let s = i@;
                    if (kw_at(s, Kw::Hex0x) || kw_at(s, Kw::Hex0X)) && run_ok(
                        CharClass::HexNum,
                        s.skip(2),
                    ) {
                        let t = s.skip(2);
                        let n = scan_len(CharClass::HexNum, t);
                        crate::lex::lemma_scan_le(CharClass::HexNum, t);
                        lemma_scan_prefix_in_class(CharClass::HexNum, t);
                        assert(text@ == t.take(n as int));
                        assert(text@.len() == n);
                        assert forall|k: int| 0 <= k < text@.len() implies digit_val(text@[k])
                            < radix by {
                            assert(text@[k] == t[k]);
                            assert(in_class(CharClass::HexNum, t[k]));
                        }
                    } else if (kw_at(s, Kw::Bin0b) || kw_at(s, Kw::Bin0B)) && run_ok(
                        CharClass::BinNum,
                        s.skip(2),
                    ) {
                        let t = s.skip(2);
                        let n = scan_len(CharClass::BinNum, t);
                        crate::lex::lemma_scan_le(CharClass::BinNum, t);
                        lemma_scan_prefix_in_class(CharClass::BinNum, t);
                        assert(text@ == t.take(n as int));
                        assert(text@.len() == n);
                        assert forall|k: int| 0 <= k < text@.len() implies digit_val(text@[k])
                            < radix by {
                            assert(text@[k] == t[k]);
                            assert(in_class(CharClass::BinNum, t[k]));
                        }
                    } else if (kw_at(s, Kw::Oct0o) || kw_at(s, Kw::Oct0O)) && run_ok(
                        CharClass::OctNum,
                        s.skip(2),
                    ) {
                        let t = s.skip(2);
                        let n = scan_len(CharClass::OctNum, t);
                        crate::lex::lemma_scan_le(CharClass::OctNum, t);
                        lemma_scan_prefix_in_class(CharClass::OctNum, t);
                        assert(text@ == t.take(n as int));
                        assert(text@.len() == n);
                        assert forall|k: int| 0 <= k < text@.len() implies digit_val(text@[k])
                            < radix by {
                            assert(text@[k] == t[k]);
                            assert(in_class(CharClass::OctNum, t[k]));
                        }
                    } else {
                        let n = scan_len(CharClass::DecNum, s);
                        crate::lex::lemma_scan_le(CharClass::DecNum, s);
                        lemma_scan_prefix_in_class(CharClass::DecNum, s);
                        assert(text@ == s.take(n as int));
                        assert(text@.len() == n);
                        assert forall|k: int| 0 <= k < text@.len() implies digit_val(text@[k])
                            < radix by {
                            assert(text@[k] == s[k]);
                            assert(in_class(CharClass::DecNum, s[k]));
                        }
                    }
                }
                match read_variable_type_primitive_no_whitespace(rest) {
                    Ok((rest2, t)) => {
                        proof {
                            lemma_nl_type_view(&t);
                        }
                        if t.is_boolean() {
                            Err(PErr { fatal: true, ctx: Ctx::NumberAsBoolean, rem: rest2.len() })
                        } else {
                            finish_integer(text, radix, rest2, t)
                        }
                    },
                    Err(_) => finish_integer(text, radix, rest, NLType::I32),
                }
            },
            None => Err(PErr { fatal: false, ctx: Ctx::Token, rem: i.len() }),
        },
    }
}

// ---------------------------------------------------------------------------
// Boolean, string, and the constant alternative
// ---------------------------------------------------------------------------

/// A boolean literal: a run of letters that spells `true` or `false`.
pub open spec fn spec_read_boolean_constant(s: Seq<u8>) -> PRes<ConstV> {
    let n = scan_len(CharClass::Alpha, s);
    if n == 0 {
        PRes::NoParse(fail_at(Ctx::Token, s))
    } else if n == 4 && kw_at(s, Kw::TrueKw) {
        PRes::Parsed(s.skip(4), ConstV::Boolean(true))
    } else if n == 5 && kw_at(s, Kw::FalseKw) {
        PRes::Parsed(s.skip(5), ConstV::Boolean(false))
    } else {
        PRes::NoParse(fail_at(Ctx::BooleanLiteral, s.skip(n as int)))
    }
}

/// Read a boolean literal.
pub fn read_boolean_constant<'a>(i: &'a [u8]) -> (r: Result<(&'a [u8], OpConstant), PErr>)
    ensures
        out_matches(r, spec_read_boolean_constant(i@)),
{
    let n = scan(i, CharClass::Alpha);
    if n == 0 {
        Err(PErr { fatal: false, ctx: Ctx::Token, rem: i.len() })
    } else if n == 4 && kw_matches(i, Kw::TrueKw) {
        Ok((vstd::slice::slice_subrange(i, 4, i.len()), OpConstant::Boolean(true)))
    } else if n == 5 && kw_matches(i, Kw::FalseKw) {
        Ok((vstd::slice::slice_subrange(i, 5, i.len()), OpConstant::Boolean(false)))
    } else {
        Err(PErr { fatal: false, ctx: Ctx::BooleanLiteral, rem: i.len() - n })
    }
}

/// A string literal: a double-quoted run excluding `"`. The content is kept
/// unescaped; escape processing belongs to a later stage.
pub open spec fn spec_read_string_constant(s: Seq<u8>) -> PRes<ConstV> {
    let t = after_blank(s);
    if at_byte(t, '"' as u8) {
        let u = t.skip(1);
        let n = scan_len(CharClass::NotQuote, u);
        if n < u.len() {
            PRes::Parsed(u.skip(n as int + 1), ConstV::Text(u.take(n as int)))
        } else {
            PRes::NoParse(fail_at(Ctx::Token, u.skip(n as int)))
        }
    } else {
        PRes::NoParse(fail_at(Ctx::Token, t))
    }
}

/// Read a string literal.
pub fn read_string_constant<'a>(i: &'a [u8]) -> (r: Result<(&'a [u8], OpConstant), PErr>)
    ensures
        out_matches(r, spec_read_string_constant(i@)),
{
    broadcast use crate::lex::lemma_bytes_deep_view;

    let t = blank(i);
    if t.len() > 0 && t[0] == ('"' as u8) {
        let u = vstd::slice::slice_subrange(t, 1, t.len());
        let n = scan(u, CharClass::NotQuote);
        if n < u.len() {
            let content = vstd::slice::slice_to_vec(vstd::slice::slice_subrange(u, 0, n));
            Ok((vstd::slice::slice_subrange(u, n + 1, u.len()), OpConstant::Text(content)))
        } else {
            Err(PErr { fatal: false, ctx: Ctx::Token, rem: u.len() - n })
        }
    } else {
        Err(PErr { fatal: false, ctx: Ctx::Token, rem: t.len() })
    }
}

/// The constant grammar: leading trivia, then the first of boolean,
/// numeric, string that matches; a fatal failure stops the search.
pub open spec fn spec_read_constant_raw(s: Seq<u8>) -> PRes<ConstV> {
    let t = after_blank(s);
    match spec_read_boolean_constant(t) {
        PRes::Parsed(rest, c) => PRes::Parsed(rest, c),
        PRes::NoParse(e1) => {
            if e1.fatal {
                PRes::NoParse(e1)
            } else {
                match spec_read_numerical_constant(t) {
                    PRes::Parsed(rest, c) => PRes::Parsed(rest, c),
                    PRes::NoParse(e2) => {
                        if e2.fatal {
                            PRes::NoParse(e2)
                        } else {
                            spec_read_string_constant(t)
                        }
                    },
                }
            }
        },
    }
}

/// Read a constant of any kind.
pub fn read_constant_raw<'a>(i: &'a [u8]) -> (r: Result<(&'a [u8], OpConstant), PErr>)
    ensures
        out_matches(r, spec_read_constant_raw(i@)),
{
    let t = blank(i);
    match read_boolean_constant(t) {
        Ok(p) => Ok(p),
        Err(e1) => {
            if e1.fatal {
                Err(e1)
            } else {
                match read_numerical_constant(t) {
                    Ok(p) => Ok(p),
                    Err(e2) => {
                        if e2.fatal {
                            Err(e2)
                        } else {
                            read_string_constant(t)
                        }
                    },
                }
            }
        },
    }
}

/// A constant, as an operation of the expression tree.
pub open spec fn spec_read_constant(s: Seq<u8>) -> PRes<OpV> {
    match spec_read_constant_raw(s) {
        PRes::Parsed(rest, c) => PRes::Parsed(rest, OpV::Constant(c)),
        PRes::NoParse(e) => PRes::NoParse(e),
    }
}

/// Read a constant operation.
pub fn read_constant<'a>(i: &'a [u8]) -> (r: Result<(&'a [u8], NLOperation), PErr>)
    ensures
        out_matches(r, spec_read_constant(i@)),
{
    match read_constant_raw(i) {
        Ok((rest, c)) => Ok((rest, NLOperation::Constant(c))),
        Err(e) => Err(e),
    }
}

} // verus!
