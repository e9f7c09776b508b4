//! Diagnostics for the parser.
//!
//! Every production either succeeds, or stops with a `PErr` that records the
//! severity, a short static context, and how much of the input was still
//! unread when the failure happened (which pins down the source location).
use vstd::prelude::*;
use vstd::string::*;

verus! {

/// The static context attached to a failure.
#[derive(Clone, Copy, Debug, PartialEq, Eq, Structural)]
pub enum Ctx {
    /// A keyword, punctuation mark, or character run was expected.
    Token,
    /// A boolean literal must be spelled `true` or `false`.
    BooleanLiteral,
    /// A fractional literal can only carry a floating-point suffix.
    FractionalType,
    /// A numeric literal cannot carry the boolean type.
    NumberAsBoolean,
    /// The digits of an integer literal could not be converted, or the value
    /// does not fit the resolved width.
    IntegerValue,
    /// The scanned operator symbols name no known operator.
    UnknownOperator,
    /// The input does not begin with the `break` keyword.
    NotBreak,
    /// An argument declaration was started but cannot be understood.
    ArgumentDeclaration,
    /// The argument list has ended; there is no further argument.
    NoArgument,
    /// A primitive type keyword was expected.
    PrimitiveType,
    /// No variable type could be recognized.
    VariableType,
    /// A root-level declaration (struct, trait, fn, or enum) was expected.
    RootDeclaration,
}

/// A located parse failure.
///
/// `rem` is the number of input bytes that were still unread at the point of
/// failure; the byte offset of the failure in a buffer `s` is therefore
/// `s.len() - rem`. A `fatal` failure is never absorbed by an alternative or
/// an optional production; a recoverable one only makes the caller try the
/// next alternative.
#[derive(Clone, Copy, Debug, PartialEq, Eq, Structural)]
pub struct PErr {
    pub fatal: bool,
    pub ctx: Ctx,
    pub rem: usize,
}

/// A recoverable failure with `s` still unread.
pub open spec fn fail_at(ctx: Ctx, s: Seq<u8>) -> PErr {
    PErr { fatal: false, ctx, rem: s.len() as usize }
}

/// A fatal failure with `s` still unread.
pub open spec fn fatal_at(ctx: Ctx, s: Seq<u8>) -> PErr {
    PErr { fatal: true, ctx, rem: s.len() as usize }
}

impl Ctx {
    /// The context rendered as text, as UTF-8 bytes.
    pub open spec fn spec_text(self) -> Seq<u8> {
        match self {
            Ctx::Token => "expected a different token here".spec_bytes(),
            Ctx::BooleanLiteral => "boolean must be true or false".spec_bytes(),
            Ctx::FractionalType => "a fractional number must have a floating point type".spec_bytes(),
            Ctx::NumberAsBoolean => "cannot represent a number as a boolean".spec_bytes(),
            Ctx::IntegerValue => "failed to parse integer".spec_bytes(),
            Ctx::UnknownOperator => "unknown operator".spec_bytes(),
            Ctx::NotBreak => "this is not a break operation".spec_bytes(),
            Ctx::ArgumentDeclaration => "could not read declaration of argument correctly".spec_bytes(),
            Ctx::NoArgument => "there is no argument".spec_bytes(),
            Ctx::PrimitiveType => "constants must be primitive types: i8-64, u8-64, f32-64, or bool".spec_bytes(),
            Ctx::VariableType => "unknown variable type".spec_bytes(),
            Ctx::RootDeclaration => "expected a root declaration: struct, trait, fn, or enum".spec_bytes(),
        }
    }

    /// The context rendered as text, as UTF-8 bytes.
    pub fn text(self) -> (r: &'static [u8])
        ensures
            r@ == self.spec_text(),
    {
        match self {
            Ctx::Token => "expected a different token here".as_bytes(),
            Ctx::BooleanLiteral => "boolean must be true or false".as_bytes(),
            Ctx::FractionalType => "a fractional number must have a floating point type".as_bytes(),
            Ctx::NumberAsBoolean => "cannot represent a number as a boolean".as_bytes(),
            Ctx::IntegerValue => "failed to parse integer".as_bytes(),
            Ctx::UnknownOperator => "unknown operator".as_bytes(),
            Ctx::NotBreak => "this is not a break operation".as_bytes(),
            Ctx::ArgumentDeclaration => "could not read declaration of argument correctly".as_bytes(),
            Ctx::NoArgument => "there is no argument".as_bytes(),
            Ctx::PrimitiveType => "constants must be primitive types: i8-64, u8-64, f32-64, or bool".as_bytes(),
            Ctx::VariableType => "unknown variable type".as_bytes(),
            Ctx::RootDeclaration => "expected a root declaration: struct, trait, fn, or enum".as_bytes(),
        }
    }
}

} // verus!
