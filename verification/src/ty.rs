//! The type grammar: primitive keywords, the borrowed-string keyword, and
//! nominal struct/trait references with ownership qualifiers.
use vstd::prelude::*;
use crate::ast::NLType;
use crate::err::{Ctx, PErr, fail_at};
use crate::lex::{
    CharClass, Kw, PRes, after_blank, at_byte, blank, eat_byte, kw_at, kw_matches, out_matches,
    scan, scan_len, spec_read_struct_or_trait_name, read_struct_or_trait_name, spec_tag, tag,
};
use crate::views::TypeV;

verus! {

/// Whether a name spells the `self` keyword and nothing more.
pub open spec fn is_self_name(n: Seq<u8>) -> bool {
    n.len() == 4 && kw_at(n, Kw::SelfKw)
}

/// The nominal-type grammar: an optional reference marker, an optional
/// mutability marker (meaningful only after a reference marker), an optional
/// `dyn` marker telling traits from structs, then a name. A name that spells
/// `self` yields the self-reference forms.
pub open spec fn spec_identify_struct_or_trait_type(s: Seq<u8>) -> PRes<TypeV> {
    let (is_ref, s1) = if at_byte(s, '&' as u8) {
        (true, s.skip(1))
    } else {
        (false, s)
    };
    let s2 = after_blank(s1);
    let (is_mut, s3) = if is_ref {
        if kw_at(s2, Kw::Mut) {
            (true, after_blank(s2.skip(3)))
        } else {
            (false, after_blank(s2))
        }
    } else {
        (false, s2)
    };
    let (is_struct, s4) = if kw_at(s3, Kw::Dyn) {
        (false, s3.skip(3))
    } else {
        (true, s3)
    };
    match spec_read_struct_or_trait_name(s4) {
        PRes::Parsed(rest, name) => PRes::Parsed(
            rest,
            if is_self_name(name) {
                if is_ref && is_mut {
                    TypeV::MutableSelfReference
                } else {
                    TypeV::SelfReference
                }
            } else if is_struct {
                if is_ref {
                    if is_mut {
                        TypeV::MutableReferencedStruct(name)
                    } else {
                        TypeV::ReferencedStruct(name)
                    }
                } else {
                    TypeV::OwnedStruct(name)
                }
            } else {
                if is_ref {
                    if is_mut {
                        TypeV::MutableReferencedTrait(name)
                    } else {
                        TypeV::ReferencedTrait(name)
                    }
                } else {
                    TypeV::OwnedTrait(name)
                }
            },
        ),
        PRes::NoParse(e) => PRes::NoParse(PErr { ctx: Ctx::VariableType, ..e }),
    }
}

/// Read a nominal struct or trait type with its ownership qualifiers.
#[verifier::rlimit(50)]
pub fn identify_struct_or_trait_type<'a>(i: &'a [u8]) -> (r: Result<(&'a [u8], NLType), PErr>)
    ensures
        out_matches(r, spec_identify_struct_or_trait_type(i@)),
{
    let (is_ref, i1) = match eat_byte(i, '&' as u8) {
        Some(rest) => (true, rest),
        None => (false, i),
    };
    let i2 = blank(i1);
    let (is_mut, i3) = if is_ref {
        match tag(i2, Kw::Mut) {
            Some(rest) => (true, blank(rest)),
            None => (false, blank(i2)),
        }
    } else {
        (false, i2)
    };
    let (is_struct, i4) = match tag(i3, Kw::Dyn) {
        Some(rest) => (false, rest),
        None => (true, i3),
    };
    match read_struct_or_trait_name(i4) {
        Ok((rest, name)) => {
            let is_self = name.len() == 4 && kw_matches(name.as_slice(), Kw::SelfKw);
            proof {
                assert(name@ =~= name.deep_view());
            }
            let ty = if is_self {
                if is_ref && is_mut {
                    NLType::MutableSelfReference
                } else {
                    NLType::SelfReference
                }
            } else if is_struct {
                if is_ref {
                    if is_mut {
                        NLType::MutableReferencedStruct(name)
                    } else {
                        NLType::ReferencedStruct(name)
                    }
                } else {
                    NLType::OwnedStruct(name)
                }
            } else {
                if is_ref {
                    if is_mut {
                        NLType::MutableReferencedTrait(name)
                    } else {
                        NLType::ReferencedTrait(name)
                    }
                } else {
                    NLType::OwnedTrait(name)
                }
            };
            Ok((rest, ty))
        },
        Err(e) => Err(PErr { ctx: Ctx::VariableType, ..e }),
    }
}

/// The closed primitive-keyword set, matched exactly against a run of
/// letters and digits, with no leading trivia allowed.
pub open spec fn spec_read_primitive_type(s: Seq<u8>) -> PRes<TypeV> {
    let n = scan_len(CharClass::Alnum, s);
    if n == 2 && kw_at(s, Kw::TyI8) {
        PRes::Parsed(s.skip(2), TypeV::I8)
    } else if n == 3 && kw_at(s, Kw::TyI16) {
        PRes::Parsed(s.skip(3), TypeV::I16)
    } else if n == 3 && kw_at(s, Kw::TyI32) {
        PRes::Parsed(s.skip(3), TypeV::I32)
    } else if n == 3 && kw_at(s, Kw::TyI64) {
        PRes::Parsed(s.skip(3), TypeV::I64)
    } else if n == 2 && kw_at(s, Kw::TyU8) {
        PRes::Parsed(s.skip(2), TypeV::U8)
    } else if n == 3 && kw_at(s, Kw::TyU16) {
        PRes::Parsed(s.skip(3), TypeV::U16)
    } else if n == 3 && kw_at(s, Kw::TyU32) {
        PRes::Parsed(s.skip(3), TypeV::U32)
    } else if n == 3 && kw_at(s, Kw::TyU64) {
        PRes::Parsed(s.skip(3), TypeV::U64)
    } else if n == 3 && kw_at(s, Kw::TyF32) {
        PRes::Parsed(s.skip(3), TypeV::F32)
    } else if n == 3 && kw_at(s, Kw::TyF64) {
        PRes::Parsed(s.skip(3), TypeV::F64)
    } else if n == 4 && kw_at(s, Kw::TyBool) {
        PRes::Parsed(s.skip(4), TypeV::Boolean)
    } else {
        PRes::NoParse(fail_at(Ctx::PrimitiveType, s.skip(n as int)))
    }
}

/// Read a primitive type keyword with no surrounding trivia.
pub fn read_variable_type_primitive_no_whitespace<'a>(i: &'a [u8]) -> (r: Result<
    (&'a [u8], NLType),
    PErr,
>)
    ensures
        out_matches(r, spec_read_primitive_type(i@)),
{
    let n = scan(i, CharClass::Alnum);
    if n == 2 && kw_matches(i, Kw::TyI8) {
        Ok((vstd::slice::slice_subrange(i, 2, i.len()), NLType::I8))
    } else if n == 3 && kw_matches(i, Kw::TyI16) {
        Ok((vstd::slice::slice_subrange(i, 3, i.len()), NLType::I16))
    } else if n == 3 && kw_matches(i, Kw::TyI32) {
        Ok((vstd::slice::slice_subrange(i, 3, i.len()), NLType::I32))
    } else if n == 3 && kw_matches(i, Kw::TyI64) {
        Ok((vstd::slice::slice_subrange(i, 3, i.len()), NLType::I64))
    } else if n == 2 && kw_matches(i, Kw::TyU8) {
        Ok((vstd::slice::slice_subrange(i, 2, i.len()), NLType::U8))
    } else if n == 3 && kw_matches(i, Kw::TyU16) {
        Ok((vstd::slice::slice_subrange(i, 3, i.len()), NLType::U16))
    } else if n == 3 && kw_matches(i, Kw::TyU32) {
        Ok((vstd::slice::slice_subrange(i, 3, i.len()), NLType::U32))
    } else if n == 3 && kw_matches(i, Kw::TyU64) {
        Ok((vstd::slice::slice_subrange(i, 3, i.len()), NLType::U64))
    } else if n == 3 && kw_matches(i, Kw::TyF32) {
        Ok((vstd::slice::slice_subrange(i, 3, i.len()), NLType::F32))
    } else if n == 3 && kw_matches(i, Kw::TyF64) {
        Ok((vstd::slice::slice_subrange(i, 3, i.len()), NLType::F64))
    } else if n == 4 && kw_matches(i, Kw::TyBool) {
        Ok((vstd::slice::slice_subrange(i, 4, i.len()), NLType::Boolean))
    } else {
        Err(PErr { fatal: false, ctx: Ctx::PrimitiveType, rem: i.len() - n })
    }
}

/// The full type grammar with no leading trivia: the primitive keywords
/// first, then the borrowed-string keyword, then nominal types.
pub open spec fn spec_read_variable_type_no_whitespace(s: Seq<u8>) -> PRes<TypeV> {
    match spec_read_primitive_type(s) {
        PRes::Parsed(rest, t) => PRes::Parsed(rest, t),
        PRes::NoParse(e1) => {
            if e1.fatal {
                PRes::NoParse(e1)
            } else {
                let t = after_blank(s);
                match spec_tag(after_blank(t), Kw::StrKw) {
                    Some(rest) => PRes::Parsed(rest, TypeV::BorrowedString),
                    None => spec_identify_struct_or_trait_type(t),
                }
            }
        },
    }
}

/// Read a type with no leading trivia.
pub fn read_variable_type_no_whitespace<'a>(i: &'a [u8]) -> (r: Result<(&'a [u8], NLType), PErr>)
    ensures
        out_matches(r, spec_read_variable_type_no_whitespace(i@)),
{
    match read_variable_type_primitive_no_whitespace(i) {
        Ok(p) => Ok(p),
        Err(e1) => {
            if e1.fatal {
                Err(e1)
            } else {
                let t = blank(i);
                match tag(blank(t), Kw::StrKw) {
                    Some(rest) => Ok((rest, NLType::BorrowedString)),
                    None => identify_struct_or_trait_type(t),
                }
            }
        },
    }
}

/// The full type grammar: leading trivia, then the type.
pub open spec fn spec_read_variable_type(s: Seq<u8>) -> PRes<TypeV> {
    spec_read_variable_type_no_whitespace(after_blank(s))
}

/// Read a type, skipping leading trivia.
pub fn read_variable_type<'a>(i: &'a [u8]) -> (r: Result<(&'a [u8], NLType), PErr>)
    ensures
        out_matches(r, spec_read_variable_type(i@)),
{
    read_variable_type_no_whitespace(blank(i))
}

/// A cast: the `as` keyword followed by a type.
pub open spec fn spec_read_cast(s: Seq<u8>) -> PRes<TypeV> {
    match spec_tag(after_blank(s), Kw::As) {
        Some(rest) => spec_read_variable_type(after_blank(rest)),
        None => PRes::NoParse(fail_at(Ctx::Token, after_blank(s))),
    }
}

/// Read a cast: `as` followed by a type.
pub fn read_cast<'a>(i: &'a [u8]) -> (r: Result<(&'a [u8], NLType), PErr>)
    ensures
        out_matches(r, spec_read_cast(i@)),
{
    let t = blank(i);
    match tag(t, Kw::As) {
        Some(rest) => read_variable_type(blank(rest)),
        None => Err(PErr { fatal: false, ctx: Ctx::Token, rem: t.len() }),
    }
}

} // verus!
