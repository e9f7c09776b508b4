//! The declaration grammar: argument lists, methods, getters, setters,
//! implementation blocks, structs, traits, enums, and free functions.
use vstd::prelude::*;
use crate::ast::{
    EnumVariant, NLArgument, NLEncapsulationBlock, NLEnum, NLFunction, NLGetter, NLImplementation,
    NLImplementor, NLSetter, NLStruct, NLStructVariable, NLTrait, NLType,
};
use crate::err::{Ctx, PErr, fail_at, fatal_at};
use crate::expr::{paren_fail, spec_paren_fail, read_code_block_raw, spec_read_code_block_raw};
use crate::lex::{
    Kw, PRes, after_blank, at_byte, blank, eat_byte, kw_at, out_matches, paren_inner,
    read_method_name, read_struct_or_trait_name, read_variable_name, spec_paren_inner,
    spec_read_method_name, spec_read_struct_or_trait_name, spec_read_variable_name, spec_tag, tag,
};
use crate::ty::{read_variable_type, spec_read_variable_type};
use crate::views::{
    ArgV, BlockV, EncapBlockV, EnumV, EnumVariantV, FuncV, GetterV, ImplV, ImplementorV, SetterV,
    StructV, StructVarV, TraitV, TypeV,
};

verus! {

broadcast use crate::lex::lemma_bytes_deep_view;

// ---------------------------------------------------------------------------
// Arguments
// ---------------------------------------------------------------------------

/// One argument declaration: `name: type`, or the fixed self-arguments
/// `&self` and `&mut self` with any trivia after the reference marker.
/// Inside a nonempty list, anything else is a fatal failure.
#[verifier::opaque]
pub open spec fn spec_read_argument_declaration(s: Seq<u8>) -> PRes<ArgV> {
    let t = after_blank(s);
    match spec_read_variable_name(t) {
        PRes::Parsed(r1, nm) => {
            let t2 = after_blank(r1);
            if at_byte(t2, ':' as u8) {
                match spec_read_variable_type(t2.skip(1)) {
                    PRes::Parsed(r2, ty) => PRes::Parsed(
                        after_blank(r2),
                        ArgV { name: nm, nl_type: ty },
                    ),
                    PRes::NoParse(e) => PRes::NoParse(e),
                }
            } else {
                PRes::NoParse(fail_at(Ctx::Token, t2))
            }
        },
        PRes::NoParse(_) => {
            if at_byte(t, '&' as u8) && kw_at(after_blank(t.skip(1)), Kw::SelfKw) {
                let t3 = after_blank(t.skip(1));
                PRes::Parsed(
                    t3.skip(4),
                    ArgV { name: t3.take(4), nl_type: TypeV::SelfReference },
                )
            } else if at_byte(t, '&' as u8) && kw_at(after_blank(t.skip(1)), Kw::Mut) {
                let t4 = after_blank(after_blank(t.skip(1)).skip(3));
                if kw_at(t4, Kw::SelfKw) {
                    PRes::Parsed(
                        t4.skip(4),
                        ArgV { name: t4.take(4), nl_type: TypeV::MutableSelfReference },
                    )
                } else {
                    PRes::NoParse(fail_at(Ctx::Token, t4))
                }
            } else if t.len() > 0 {
                PRes::NoParse(fatal_at(Ctx::ArgumentDeclaration, t))
            } else {
                PRes::NoParse(fail_at(Ctx::NoArgument, t))
            }
        },
    }
}

/// Read one argument declaration.
pub fn read_argument_declaration<'a>(i: &'a [u8]) -> (r: Result<(&'a [u8], NLArgument), PErr>)
    ensures
        out_matches(r, spec_read_argument_declaration(i@)),
{
    reveal(spec_read_argument_declaration);
    let t = blank(i);
    match read_variable_name(t) {
        Ok((r1, nm)) => {
            let t2 = blank(r1);
            match eat_byte(t2, ':' as u8) {
                Some(after) => {
                    match read_variable_type(after) {
                        Ok((r2, ty)) => Ok((blank(r2), NLArgument { name: nm, nl_type: ty })),
                        Err(e) => Err(e),
                    }
                },
                None => Err(PErr { fatal: false, ctx: Ctx::Token, rem: t2.len() }),
            }
        },
        Err(_) => {
            if t.len() > 0 && t[0] == ('&' as u8) {
                let t3 = blank(vstd::slice::slice_subrange(t, 1, t.len()));
                match tag(t3, Kw::SelfKw) {
                    Some(rest) => {
                        let name = vstd::slice::slice_to_vec(
                            vstd::slice::slice_subrange(t3, 0, 4),
                        );
                        proof {
                            assert(name@ =~= t3@.take(4));
                        }
                        return Ok((rest, NLArgument { name, nl_type: NLType::SelfReference }));
                    },
                    None => {},
                }
                match tag(t3, Kw::Mut) {
                    Some(after_mut) => {
                        let t4 = blank(after_mut);
                        match tag(t4, Kw::SelfKw) {
                            Some(rest) => {
                                let name = vstd::slice::slice_to_vec(
                                    vstd::slice::slice_subrange(t4, 0, 4),
                                );
                                proof {
                                    assert(name@ =~= t4@.take(4));
                                }
                                Ok((rest, NLArgument {
                                    name,
                                    nl_type: NLType::MutableSelfReference,
                                }))
                            },
                            None => Err(PErr { fatal: false, ctx: Ctx::Token, rem: t4.len() }),
                        }
                    },
                    None => {
                        if t.len() > 0 {
                            Err(PErr { fatal: true, ctx: Ctx::ArgumentDeclaration, rem: t.len() })
                        } else {
                            Err(PErr { fatal: false, ctx: Ctx::NoArgument, rem: t.len() })
                        }
                    },
                }
            } else {
                if t.len() > 0 {
                    Err(PErr { fatal: true, ctx: Ctx::ArgumentDeclaration, rem: t.len() })
                } else {
                    Err(PErr { fatal: false, ctx: Ctx::NoArgument, rem: t.len() })
                }
            }
        },
    }
}

/// Arguments separated by bare commas; an argument with no comma after it
/// ends the list, and whatever follows it inside the region is discarded.
#[verifier::opaque]
pub open spec fn spec_arg_items(t: Seq<u8>, acc: Seq<ArgV>) -> PRes<Seq<ArgV>>
    decreases t.len(),
{
    match spec_read_argument_declaration(t) {
        PRes::NoParse(e) => if e.fatal {
            PRes::NoParse(e)
        } else {
            PRes::Parsed(t, acc)
        },
        PRes::Parsed(r, a) => {
            if at_byte(r, ',' as u8) {
                let r2 = r.skip(1);
                if r2.len() < t.len() {
                    spec_arg_items(r2, acc.push(a))
                } else {
                    PRes::Parsed(r2, acc.push(a))
                }
            } else {
                PRes::Parsed(r, acc.push(a))
            }
        },
    }
}

/// Read comma-separated argument declarations.
fn arg_items<'a>(t0: &'a [u8]) -> (r: Result<(&'a [u8], Vec<NLArgument>), PErr>)
    ensures
        match r {
            Ok(p) => spec_arg_items(t0@, Seq::empty()) == PRes::<Seq<ArgV>>::Parsed(
                p.0@,
                p.1.deep_view(),
            ),
            Err(e) => spec_arg_items(t0@, Seq::empty()) == PRes::<Seq<ArgV>>::NoParse(e),
        },
{
    let mut cur = t0;
    let mut args: Vec<NLArgument> = Vec::new();
    proof {
        assert(args.deep_view() =~= Seq::<ArgV>::empty());
    }
    loop
        invariant
            cur@.len() <= t0@.len(),
            spec_arg_items(t0@, Seq::empty()) == spec_arg_items(cur@, args.deep_view()),
        decreases cur@.len(),
    {
        reveal(spec_arg_items);
        match read_argument_declaration(cur) {
            Err(e) => {
                if e.fatal {
                    return Err(e);
                } else {
                    return Ok((cur, args));
                }
            },
            Ok((r, a)) => {
                let ghost prev = args.deep_view();
                let ghost av = a.deep_view();
                args.push(a);
                proof {
                    assert(args.deep_view() =~= prev.push(av));
                }
                match eat_byte(r, ',' as u8) {
                    Some(r2) => {
                        if r2.len() < cur.len() {
                            cur = r2;
                        } else {
                            return Ok((r2, args));
                        }
                    },
                    None => {
                        return Ok((r, args));
                    },
                }
            },
        }
    }
}

/// A parenthesized argument declaration list.
#[verifier::opaque]
pub open spec fn spec_read_argument_deceleration_list(s: Seq<u8>) -> PRes<Seq<ArgV>> {
    match spec_paren_inner(s) {
        Some(p) => match spec_arg_items(p.0, Seq::empty()) {
            PRes::Parsed(_, args) => PRes::Parsed(p.1, args),
            PRes::NoParse(e) => PRes::NoParse(e),
        },
        None => PRes::NoParse(spec_paren_fail(s)),
    }
}

/// Read a parenthesized argument declaration list.
pub fn read_argument_deceleration_list<'a>(i: &'a [u8]) -> (r: Result<
    (&'a [u8], Vec<NLArgument>),
    PErr,
>)
    ensures
        out_matches(r, spec_read_argument_deceleration_list(i@)),
{
    reveal(spec_read_argument_deceleration_list);
    match paren_inner(i) {
        Some((inner, rest)) => {
            match arg_items(inner) {
                Ok((_, args)) => Ok((rest, args)),
                Err(e) => Err(e),
            }
        },
        None => Err(paren_fail(i)),
    }
}

/// The optional return type: an arrow and a type, or nothing.
#[verifier::opaque]
pub open spec fn spec_read_return_type(s: Seq<u8>) -> PRes<TypeV> {
    let t = after_blank(s);
    if kw_at(t, Kw::Arrow) {
        match spec_read_variable_type(t.skip(2)) {
            PRes::Parsed(r, ty) => PRes::Parsed(after_blank(r), ty),
            PRes::NoParse(e) => PRes::NoParse(e),
        }
    } else {
        PRes::Parsed(t, TypeV::Unit)
    }
}

/// Read the optional return type.
pub fn read_return_type<'a>(i: &'a [u8]) -> (r: Result<(&'a [u8], NLType), PErr>)
    ensures
        out_matches(r, spec_read_return_type(i@)),
{
    reveal(spec_read_return_type);
    let t = blank(i);
    match tag(t, Kw::Arrow) {
        Some(after) => {
            match read_variable_type(after) {
                Ok((r, ty)) => Ok((blank(r), ty)),
                Err(e) => Err(e),
            }
        },
        None => Ok((t, NLType::Unit)),
    }
}

// ---------------------------------------------------------------------------
// Methods, getters, setters
// ---------------------------------------------------------------------------

/// A function signature with an optional body: name, arguments, return
/// type, then a block or a terminating semicolon.
#[verifier::opaque]
pub open spec fn spec_read_fn_rest(s: Seq<u8>) -> PRes<FuncV> {
    match spec_read_method_name(s) {
        PRes::NoParse(e) => PRes::NoParse(e),
        PRes::Parsed(r1, nm) => {
            let t1 = after_blank(r1);
            match spec_read_argument_deceleration_list(t1) {
                PRes::NoParse(e) => PRes::NoParse(e),
                PRes::Parsed(r2, args) => {
                    let t2 = after_blank(r2);
                    match spec_read_return_type(t2) {
                        PRes::NoParse(e) => PRes::NoParse(e),
                        PRes::Parsed(r3, ret) => {
                            let t3 = after_blank(r3);
                            match spec_read_code_block_raw(t3) {
                                PRes::Parsed(r4, b) => PRes::Parsed(
                                    r4,
                                    FuncV {
                                        name: nm,
                                        arguments: args,
                                        return_type: ret,
                                        block: Some(b),
                                    },
                                ),
                                PRes::NoParse(e) => if e.fatal {
                                    PRes::NoParse(e)
                                } else if at_byte(t3, ';' as u8) {
                                    PRes::Parsed(
                                        t3.skip(1),
                                        FuncV {
                                            name: nm,
                                            arguments: args,
                                            return_type: ret,
                                            block: None,
                                        },
                                    )
                                } else {
                                    PRes::NoParse(fail_at(Ctx::Token, t3))
                                },
                            }
                        },
                    }
                },
            }
        },
    }
}

/// Read a function signature with an optional body.
#[verifier::rlimit(100)]
#[verifier::spinoff_prover]
fn read_fn_rest<'a>(i: &'a [u8]) -> (r: Result<(&'a [u8], NLFunction), PErr>)
    ensures
        out_matches(r, spec_read_fn_rest(i@)),
{
    reveal(spec_read_fn_rest);
    reveal(spec_read_argument_deceleration_list);
    reveal(spec_read_return_type);
    reveal_with_fuel(crate::expr::spec_read_code_block_raw, 1);
    match read_method_name(i) {
        Err(e) => Err(e),
        Ok((r1, nm)) => {
            let t1 = blank(r1);
            match read_argument_deceleration_list(t1) {
                Err(e) => Err(e),
                Ok((r2, args)) => {
                    let t2 = blank(r2);
                    match read_return_type(t2) {
                        Err(e) => Err(e),
                        Ok((r3, ret)) => {
                            let t3 = blank(r3);
                            match read_code_block_raw(t3) {
                                Ok((r4, b)) => Ok(
                                    (
                                        r4,
                                        NLFunction {
                                            name: nm,
                                            arguments: args,
                                            return_type: ret,
                                            block: Some(b),
                                        },
                                    ),
                                ),
                                Err(e) => {
                                    if e.fatal {
                                        Err(e)
                                    } else {
                                        match eat_byte(t3, ';' as u8) {
                                            Some(rest) => Ok(
                                                (
                                                    rest,
                                                    NLFunction {
                                                        name: nm,
                                                        arguments: args,
                                                        return_type: ret,
                                                        block: None,
                                                    },
                                                ),
                                            ),
                                            None => Err(
                                                PErr {
                                                    fatal: false,
                                                    ctx: Ctx::Token,
                                                    rem: t3.len(),
                                                },
                                            ),
                                        }
                                    }
                                },
                            }
                        },
                    }
                },
            }
        },
    }
}

/// A method: the `met` keyword, then a signature with an optional body.
#[verifier::opaque]
pub open spec fn spec_read_method(s: Seq<u8>) -> PRes<ImplementorV> {
    let t = after_blank(s);
    match spec_tag(t, Kw::Met) {
        None => PRes::NoParse(fail_at(Ctx::Token, t)),
        Some(after) => match spec_read_fn_rest(after_blank(after)) {
            PRes::Parsed(r, f) => PRes::Parsed(r, ImplementorV::Method(f)),
            PRes::NoParse(e) => PRes::NoParse(e),
        },
    }
}

/// Read a method.
pub fn read_method<'a>(i: &'a [u8]) -> (r: Result<(&'a [u8], NLImplementor), PErr>)
    ensures
        out_matches(r, spec_read_method(i@)),
{
    reveal(spec_read_method);
    reveal(spec_read_fn_rest);
    let t = blank(i);
    match tag(t, Kw::Met) {
        None => Err(PErr { fatal: false, ctx: Ctx::Token, rem: t.len() }),
        Some(after) => {
            match read_fn_rest(blank(after)) {
                Ok((r, f)) => Ok((r, NLImplementor::Method(f))),
                Err(e) => Err(e),
            }
        },
    }
}

/// A free function: the `fn` keyword, then a signature with an optional
/// body; root level only.
#[verifier::opaque]
pub open spec fn spec_read_function(s: Seq<u8>) -> PRes<FuncV> {
    let t = after_blank(s);
    match spec_tag(t, Kw::Func) {
        None => PRes::NoParse(fail_at(Ctx::Token, t)),
        Some(after) => spec_read_fn_rest(after_blank(after)),
    }
}

/// Read a free function.
pub fn read_function<'a>(i: &'a [u8]) -> (r: Result<(&'a [u8], NLFunction), PErr>)
    ensures
        out_matches(r, spec_read_function(i@)),
{
    reveal(spec_read_function);
    reveal(spec_read_fn_rest);
    let t = blank(i);
    match tag(t, Kw::Func) {
        None => Err(PErr { fatal: false, ctx: Ctx::Token, rem: t.len() }),
        Some(after) => read_fn_rest(blank(after)),
    }
}

/// A getter: `get name`, then either `: default` with a return type and a
/// semicolon, or arguments, a return type, and a block or semicolon.
#[verifier::opaque]
pub open spec fn spec_read_getter(s: Seq<u8>) -> PRes<ImplementorV> {
    let t = after_blank(s);
    match spec_tag(t, Kw::Get) {
        None => PRes::NoParse(fail_at(Ctx::Token, t)),
        Some(after) => match spec_read_method_name(after) {
            PRes::NoParse(e) => PRes::NoParse(e),
            PRes::Parsed(r1, nm) => {
                let t1 = after_blank(r1);
                if at_byte(t1, ':' as u8) && kw_at(after_blank(t1.skip(1)), Kw::DefaultKw) {
                    let t2 = after_blank(after_blank(t1.skip(1)).skip(7));
                    match spec_read_return_type(t2) {
                        PRes::NoParse(e) => PRes::NoParse(e),
                        PRes::Parsed(r2, ty) => if at_byte(r2, ';' as u8) {
                            PRes::Parsed(
                                r2.skip(1),
                                ImplementorV::Getter(
                                    GetterV {
                                        name: nm,
                                        args: Seq::empty(),
                                        nl_type: ty,
                                        block: EncapBlockV::UseDefault,
                                    },
                                ),
                            )
                        } else {
                            PRes::NoParse(fail_at(Ctx::Token, r2))
                        },
                    }
                } else {
                    match spec_read_argument_deceleration_list(t1) {
                        PRes::NoParse(e) => PRes::NoParse(e),
                        PRes::Parsed(r2, args) => match spec_read_return_type(r2) {
                            PRes::NoParse(e) => PRes::NoParse(e),
                            PRes::Parsed(r3, ty) => {
                                {
                                    match spec_read_code_block_raw(r3) {
                                        PRes::Parsed(r4, b) => PRes::Parsed(
                                            r4,
                                            ImplementorV::Getter(
                                                GetterV {
                                                    name: nm,
                                                    args,
                                                    nl_type: ty,
                                                    block: EncapBlockV::Implemented(b),
                                                },
                                            ),
                                        ),
                                        PRes::NoParse(e) => if e.fatal {
                                            PRes::NoParse(e)
                                        } else if at_byte(r3, ';' as u8) {
                                            PRes::Parsed(
                                                r3.skip(1),
                                                ImplementorV::Getter(
                                                    GetterV {
                                                        name: nm,
                                                        args,
                                                        nl_type: ty,
                                                        block: EncapBlockV::NotImplemented,
                                                    },
                                                ),
                                            )
                                        } else {
                                            PRes::NoParse(fail_at(Ctx::Token, r3))
                                        },
                                    }
                                }
                            },
                        },
                    }
                }
            },
        },
    }
}

/// Read a getter.
#[verifier::rlimit(100)]
#[verifier::spinoff_prover]
pub fn read_getter<'a>(i: &'a [u8]) -> (r: Result<(&'a [u8], NLImplementor), PErr>)
    ensures
        out_matches(r, spec_read_getter(i@)),
{
    reveal(spec_read_getter);
    reveal(spec_read_argument_deceleration_list);
    reveal(spec_read_return_type);
    reveal_with_fuel(crate::expr::spec_read_code_block_raw, 1);
    let t = blank(i);
    match tag(t, Kw::Get) {
        None => Err(PErr { fatal: false, ctx: Ctx::Token, rem: t.len() }),
        Some(after) => {
            match read_method_name(after) {
                Err(e) => Err(e),
                Ok((r1, nm)) => {
                    let t1 = blank(r1);
                    let is_default = t1.len() > 0 && t1[0] == (':' as u8) && {
                        let u = blank(vstd::slice::slice_subrange(t1, 1, t1.len()));
                        crate::lex::kw_matches(u, Kw::DefaultKw)
                    };
                    if is_default {
                        let t2 = blank(
                            vstd::slice::slice_subrange(
                                blank(vstd::slice::slice_subrange(t1, 1, t1.len())),
                                7,
                                blank(vstd::slice::slice_subrange(t1, 1, t1.len())).len(),
                            ),
                        );
                        match read_return_type(t2) {
                            Err(e) => Err(e),
                            Ok((r2, ty)) => {
                                match eat_byte(r2, ';' as u8) {
                                    Some(rest) => {
                                        let empty_args: Vec<NLArgument> = Vec::new();
                                        proof {
                                            assert(empty_args.deep_view() =~= Seq::<
                                                ArgV,
                                            >::empty());
                                        }
                                        Ok(
                                            (
                                                rest,
                                                NLImplementor::Getter(
                                                    NLGetter {
                                                        name: nm,
                                                        args: empty_args,
                                                        nl_type: ty,
                                                        block: NLEncapsulationBlock::UseDefault,
                                                    },
                                                ),
                                            ),
                                        )
                                    },
                                    None => Err(
                                        PErr { fatal: false, ctx: Ctx::Token, rem: r2.len() },
                                    ),
                                }
                            },
                        }
                    } else {
                        match read_argument_deceleration_list(t1) {
                            Err(e) => Err(e),
                            Ok((r2, args)) => {
                                match read_return_type(r2) {
                                    Err(e) => Err(e),
                                    Ok((r3, ty)) => {
                                        {
                                            match read_code_block_raw(r3) {
                                                Ok((r4, b)) => Ok(
                                                    (
                                                        r4,
                                                        NLImplementor::Getter(
                                                            NLGetter {
                                                                name: nm,
                                                                args,
                                                                nl_type: ty,
                                                                block:
                                                                    NLEncapsulationBlock::Implemented(
                                                                    b,
                                                                ),
                                                            },
                                                        ),
                                                    ),
                                                ),
                                                Err(e) => {
                                                    if e.fatal {
                                                        Err(e)
                                                    } else {
                                                        match eat_byte(r3, ';' as u8) {
                                                            Some(rest) => Ok(
                                                                (
                                                                    rest,
                                                                    NLImplementor::Getter(
                                                                        NLGetter {
                                                                            name: nm,
                                                                            args,
                                                                            nl_type: ty,
                                                                            block:
                                                                                NLEncapsulationBlock::NotImplemented,
                                                                        },
                                                                    ),
                                                                ),
                                                            ),
                                                            None => Err(
                                                                PErr {
                                                                    fatal: false,
                                                                    ctx: Ctx::Token,
                                                                    rem: r3.len(),
                                                                },
                                                            ),
                                                        }
                                                    }
                                                },
                                            }
                                        }
                                    },
                                }
                            },
                        }
                    }
                },
            }
        },
    }
}

/// A setter: `set name`, then either `: default ;`, or arguments and a
/// block or semicolon.
#[verifier::opaque]
pub open spec fn spec_read_setter(s: Seq<u8>) -> PRes<ImplementorV> {
    let t = after_blank(s);
    match spec_tag(t, Kw::SetKw) {
        None => PRes::NoParse(fail_at(Ctx::Token, t)),
        Some(after) => match spec_read_method_name(after) {
            PRes::NoParse(e) => PRes::NoParse(e),
            PRes::Parsed(r1, nm) => {
                let t1 = after_blank(r1);
                if at_byte(t1, ':' as u8) && kw_at(after_blank(t1.skip(1)), Kw::DefaultKw)
                    && at_byte(after_blank(after_blank(t1.skip(1)).skip(7)), ';' as u8) {
                    let t2 = after_blank(after_blank(t1.skip(1)).skip(7));
                    PRes::Parsed(
                        t2.skip(1),
                        ImplementorV::Setter(
                            SetterV {
                                name: nm,
                                args: Seq::empty(),
                                block: EncapBlockV::UseDefault,
                            },
                        ),
                    )
                } else {
                    match spec_read_argument_deceleration_list(t1) {
                        PRes::NoParse(e) => PRes::NoParse(e),
                        PRes::Parsed(r2, args) => {
                            let t3 = after_blank(r2);
                            {
                                match spec_read_code_block_raw(t3) {
                                    PRes::Parsed(r4, b) => PRes::Parsed(
                                        r4,
                                        ImplementorV::Setter(
                                            SetterV {
                                                name: nm,
                                                args,
                                                block: EncapBlockV::Implemented(b),
                                            },
                                        ),
                                    ),
                                    PRes::NoParse(e) => if e.fatal {
                                        PRes::NoParse(e)
                                    } else if at_byte(t3, ';' as u8) {
                                        PRes::Parsed(
                                            t3.skip(1),
                                            ImplementorV::Setter(
                                                SetterV {
                                                    name: nm,
                                                    args,
                                                    block: EncapBlockV::NotImplemented,
                                                },
                                            ),
                                        )
                                    } else {
                                        PRes::NoParse(fail_at(Ctx::Token, t3))
                                    },
                                }
                            }
                        },
                    }
                }
            },
        },
    }
}

/// Read a setter.
#[verifier::rlimit(100)]
#[verifier::spinoff_prover]
pub fn read_setter<'a>(i: &'a [u8]) -> (r: Result<(&'a [u8], NLImplementor), PErr>)
    ensures
        out_matches(r, spec_read_setter(i@)),
{
    reveal(spec_read_setter);
    reveal(spec_read_argument_deceleration_list);
    reveal_with_fuel(crate::expr::spec_read_code_block_raw, 1);
    let t = blank(i);
    match tag(t, Kw::SetKw) {
        None => Err(PErr { fatal: false, ctx: Ctx::Token, rem: t.len() }),
        Some(after) => {
            match read_method_name(after) {
                Err(e) => Err(e),
                Ok((r1, nm)) => {
                    let t1 = blank(r1);
                    let is_default = t1.len() > 0 && t1[0] == (':' as u8) && {
                        let u = blank(vstd::slice::slice_subrange(t1, 1, t1.len()));
                        crate::lex::kw_matches(u, Kw::DefaultKw) && {
                            let w = blank(vstd::slice::slice_subrange(u, 7, u.len()));
                            w.len() > 0 && w[0] == (';' as u8)
                        }
                    };
                    if is_default {
                        let u = blank(vstd::slice::slice_subrange(t1, 1, t1.len()));
                        let t2 = blank(vstd::slice::slice_subrange(u, 7, u.len()));
                        let rest = vstd::slice::slice_subrange(t2, 1, t2.len());
                        let empty_args: Vec<NLArgument> = Vec::new();
                        proof {
                            assert(empty_args.deep_view() =~= Seq::<ArgV>::empty());
                        }
                        Ok(
                            (
                                rest,
                                NLImplementor::Setter(
                                    NLSetter {
                                        name: nm,
                                        args: empty_args,
                                        block: NLEncapsulationBlock::UseDefault,
                                    },
                                ),
                            ),
                        )
                    } else {
                        match read_argument_deceleration_list(t1) {
                            Err(e) => Err(e),
                            Ok((r2, args)) => {
                                let t3 = blank(r2);
                                {
                                    match read_code_block_raw(t3) {
                                        Ok((r4, b)) => Ok(
                                            (
                                                r4,
                                                NLImplementor::Setter(
                                                    NLSetter {
                                                        name: nm,
                                                        args,
                                                        block: NLEncapsulationBlock::Implemented(
                                                            b,
                                                        ),
                                                    },
                                                ),
                                            ),
                                        ),
                                        Err(e) => {
                                            if e.fatal {
                                                Err(e)
                                            } else {
                                                match eat_byte(t3, ';' as u8) {
                                                    Some(rest) => Ok(
                                                        (
                                                            rest,
                                                            NLImplementor::Setter(
                                                                NLSetter {
                                                                    name: nm,
                                                                    args,
                                                                    block:
                                                                        NLEncapsulationBlock::NotImplemented,
                                                                },
                                                            ),
                                                        ),
                                                    ),
                                                    None => Err(
                                                        PErr {
                                                            fatal: false,
                                                            ctx: Ctx::Token,
                                                            rem: t3.len(),
                                                        },
                                                    ),
                                                }
                                            }
                                        },
                                    }
                                }
                            },
                        }
                    }
                },
            }
        },
    }
}

// ---------------------------------------------------------------------------
// Implementation blocks, structs, traits, enums
// ---------------------------------------------------------------------------

/// One member of a trait or implementation block: a method, getter, or
/// setter, in that order.
#[verifier::opaque]
pub open spec fn spec_read_implementor(s: Seq<u8>) -> PRes<ImplementorV> {
    match spec_read_method(s) {
        PRes::Parsed(r, im) => PRes::Parsed(r, im),
        PRes::NoParse(e1) => if e1.fatal {
            PRes::NoParse(e1)
        } else {
            match spec_read_getter(s) {
                PRes::Parsed(r, im) => PRes::Parsed(r, im),
                PRes::NoParse(e2) => if e2.fatal {
                    PRes::NoParse(e2)
                } else {
                    spec_read_setter(s)
                },
            }
        },
    }
}

/// Read one member of a trait or implementation block.
pub fn read_implementor<'a>(i: &'a [u8]) -> (r: Result<(&'a [u8], NLImplementor), PErr>)
    ensures
        out_matches(r, spec_read_implementor(i@)),
{
    reveal(spec_read_implementor);
    match read_method(i) {
        Ok(p) => Ok(p),
        Err(e1) => {
            if e1.fatal {
                Err(e1)
            } else {
                match read_getter(i) {
                    Ok(p) => Ok(p),
                    Err(e2) => {
                        if e2.fatal {
                            Err(e2)
                        } else {
                            read_setter(i)
                        }
                    },
                }
            }
        },
    }
}

/// Members of a trait or implementation block, one after another until one
/// fails to match.
#[verifier::opaque]
pub open spec fn spec_implementor_items(t: Seq<u8>, acc: Seq<ImplementorV>) -> PRes<
    Seq<ImplementorV>,
>
    decreases t.len(),
{
    match spec_read_implementor(t) {
        PRes::NoParse(e) => if e.fatal {
            PRes::NoParse(e)
        } else {
            PRes::Parsed(t, acc)
        },
        PRes::Parsed(r, im) => {
            if r.len() < t.len() {
                spec_implementor_items(r, acc.push(im))
            } else {
                PRes::Parsed(r, acc.push(im))
            }
        },
    }
}

/// Read the members of a trait or implementation block.
fn implementor_items<'a>(t0: &'a [u8]) -> (r: Result<(&'a [u8], Vec<NLImplementor>), PErr>)
    ensures
        match r {
            Ok(p) => spec_implementor_items(t0@, Seq::empty()) == PRes::<
                Seq<ImplementorV>,
            >::Parsed(p.0@, p.1.deep_view()),
            Err(e) => spec_implementor_items(t0@, Seq::empty()) == PRes::<
                Seq<ImplementorV>,
            >::NoParse(e),
        },
{
    let mut cur = t0;
    let mut ims: Vec<NLImplementor> = Vec::new();
    proof {
        assert(ims.deep_view() =~= Seq::<ImplementorV>::empty());
    }
    loop
        invariant
            cur@.len() <= t0@.len(),
            spec_implementor_items(t0@, Seq::empty()) == spec_implementor_items(
                cur@,
                ims.deep_view(),
            ),
        decreases cur@.len(),
    {
        reveal(spec_implementor_items);
        match read_implementor(cur) {
            Err(e) => {
                if e.fatal {
                    return Err(e);
                } else {
                    return Ok((cur, ims));
                }
            },
            Ok((r, im)) => {
                let ghost prev = ims.deep_view();
                let ghost imv = im.deep_view();
                ims.push(im);
                proof {
                    assert(ims.deep_view() =~= prev.push(imv));
                }
                if r.len() < cur.len() {
                    cur = r;
                } else {
                    return Ok((r, ims));
                }
            },
        }
    }
}

/// An implementation block: `impl`, a target name, then braced members.
#[verifier::opaque]
pub open spec fn spec_read_implementation(s: Seq<u8>) -> PRes<ImplV> {
    let t = after_blank(s);
    match spec_tag(t, Kw::Impl) {
        None => PRes::NoParse(fail_at(Ctx::Token, t)),
        Some(after) => match spec_read_struct_or_trait_name(after) {
            PRes::NoParse(e) => PRes::NoParse(e),
            PRes::Parsed(r1, nm) => {
                if at_byte(r1, '{' as u8) {
                    let t1 = after_blank(r1.skip(1));
                    match spec_implementor_items(t1, Seq::empty()) {
                        PRes::NoParse(e) => PRes::NoParse(e),
                        PRes::Parsed(r2, ims) => {
                            let t2 = after_blank(r2);
                            if at_byte(t2, '}' as u8) {
                                PRes::Parsed(t2.skip(1), ImplV { name: nm, implementors: ims })
                            } else {
                                PRes::NoParse(fail_at(Ctx::Token, t2))
                            }
                        },
                    }
                } else {
                    PRes::NoParse(fail_at(Ctx::Token, r1))
                }
            },
        },
    }
}

/// Read an implementation block.
pub fn read_implementation<'a>(i: &'a [u8]) -> (r: Result<(&'a [u8], NLImplementation), PErr>)
    ensures
        out_matches(r, spec_read_implementation(i@)),
{
    reveal(spec_read_implementation);
    reveal(spec_implementor_items);
    let t = blank(i);
    match tag(t, Kw::Impl) {
        None => Err(PErr { fatal: false, ctx: Ctx::Token, rem: t.len() }),
        Some(after) => {
            match read_struct_or_trait_name(after) {
                Err(e) => Err(e),
                Ok((r1, nm)) => {
                    match eat_byte(r1, '{' as u8) {
                        None => Err(PErr { fatal: false, ctx: Ctx::Token, rem: r1.len() }),
                        Some(after_brace) => {
                            let t1 = blank(after_brace);
                            match implementor_items(t1) {
                                Err(e) => Err(e),
                                Ok((r2, ims)) => {
                                    let t2 = blank(r2);
                                    match eat_byte(t2, '}' as u8) {
                                        Some(rest) => Ok(
                                            (
                                                rest,
                                                NLImplementation { name: nm, implementors: ims },
                                            ),
                                        ),
                                        None => Err(
                                            PErr { fatal: false, ctx: Ctx::Token, rem: t2.len() },
                                        ),
                                    }
                                },
                            }
                        },
                    }
                },
            }
        },
    }
}

/// A struct's variable: `name: type`.
pub open spec fn spec_read_struct_variable(s: Seq<u8>) -> PRes<StructVarV> {
    let t = after_blank(s);
    match spec_read_variable_name(t) {
        PRes::NoParse(e) => PRes::NoParse(e),
        PRes::Parsed(r1, nm) => {
            let t1 = after_blank(r1);
            if at_byte(t1, ':' as u8) {
                match spec_read_variable_type(t1.skip(1)) {
                    PRes::Parsed(r2, ty) => PRes::Parsed(r2, StructVarV { name: nm, my_type: ty }),
                    PRes::NoParse(e) => PRes::NoParse(e),
                }
            } else {
                PRes::NoParse(fail_at(Ctx::Token, t1))
            }
        },
    }
}

/// Read a struct's variable.
pub fn read_struct_variable<'a>(i: &'a [u8]) -> (r: Result<(&'a [u8], NLStructVariable), PErr>)
    ensures
        out_matches(r, spec_read_struct_variable(i@)),
{
    let t = blank(i);
    match read_variable_name(t) {
        Err(e) => Err(e),
        Ok((r1, nm)) => {
            let t1 = blank(r1);
            match eat_byte(t1, ':' as u8) {
                None => Err(PErr { fatal: false, ctx: Ctx::Token, rem: t1.len() }),
                Some(after) => {
                    match read_variable_type(after) {
                        Ok((r2, ty)) => Ok((r2, NLStructVariable { name: nm, my_type: ty })),
                        Err(e) => Err(e),
                    }
                },
            }
        },
    }
}

/// A struct's variables, separated by trivia and commas; a variable with no
/// comma after it ends the list.
#[verifier::opaque]
pub open spec fn spec_struct_var_items(t: Seq<u8>, acc: Seq<StructVarV>) -> PRes<Seq<StructVarV>>
    decreases t.len(),
{
    match spec_read_struct_variable(t) {
        PRes::NoParse(e) => if e.fatal {
            PRes::NoParse(e)
        } else {
            PRes::Parsed(t, acc)
        },
        PRes::Parsed(r, v) => {
            let r1 = after_blank(r);
            if at_byte(r1, ',' as u8) {
                let r2 = r1.skip(1);
                if r2.len() < t.len() {
                    spec_struct_var_items(r2, acc.push(v))
                } else {
                    PRes::Parsed(r2, acc.push(v))
                }
            } else {
                PRes::Parsed(r, acc.push(v))
            }
        },
    }
}

/// Read a struct's variables.
fn struct_var_items<'a>(t0: &'a [u8]) -> (r: Result<(&'a [u8], Vec<NLStructVariable>), PErr>)
    ensures
        match r {
            Ok(p) => spec_struct_var_items(t0@, Seq::empty()) == PRes::<
                Seq<StructVarV>,
            >::Parsed(p.0@, p.1.deep_view()),
            Err(e) => spec_struct_var_items(t0@, Seq::empty()) == PRes::<
                Seq<StructVarV>,
            >::NoParse(e),
        },
{
    let mut cur = t0;
    let mut vars: Vec<NLStructVariable> = Vec::new();
    proof {
        assert(vars.deep_view() =~= Seq::<StructVarV>::empty());
    }
    loop
        invariant
            cur@.len() <= t0@.len(),
            spec_struct_var_items(t0@, Seq::empty()) == spec_struct_var_items(
                cur@,
                vars.deep_view(),
            ),
        decreases cur@.len(),
    {
        reveal(spec_struct_var_items);
        match read_struct_variable(cur) {
            Err(e) => {
                if e.fatal {
                    return Err(e);
                } else {
                    return Ok((cur, vars));
                }
            },
            Ok((r, v)) => {
                let ghost prev = vars.deep_view();
                let ghost vv = v.deep_view();
                vars.push(v);
                proof {
                    assert(vars.deep_view() =~= prev.push(vv));
                }
                let r1 = blank(r);
                match eat_byte(r1, ',' as u8) {
                    Some(r2) => {
                        if r2.len() < cur.len() {
                            cur = r2;
                        } else {
                            return Ok((r2, vars));
                        }
                    },
                    None => {
                        return Ok((r, vars));
                    },
                }
            },
        }
    }
}

/// Implementation blocks, one after another until one fails to match.
#[verifier::opaque]
pub open spec fn spec_impl_items(t: Seq<u8>, acc: Seq<ImplV>) -> PRes<Seq<ImplV>>
    decreases t.len(),
{
    match spec_read_implementation(t) {
        PRes::NoParse(e) => if e.fatal {
            PRes::NoParse(e)
        } else {
            PRes::Parsed(t, acc)
        },
        PRes::Parsed(r, im) => {
            if r.len() < t.len() {
                spec_impl_items(r, acc.push(im))
            } else {
                PRes::Parsed(r, acc.push(im))
            }
        },
    }
}

/// Read implementation blocks.
fn impl_items<'a>(t0: &'a [u8]) -> (r: Result<(&'a [u8], Vec<NLImplementation>), PErr>)
    ensures
        match r {
            Ok(p) => spec_impl_items(t0@, Seq::empty()) == PRes::<Seq<ImplV>>::Parsed(
                p.0@,
                p.1.deep_view(),
            ),
            Err(e) => spec_impl_items(t0@, Seq::empty()) == PRes::<Seq<ImplV>>::NoParse(e),
        },
{
    let mut cur = t0;
    let mut ims: Vec<NLImplementation> = Vec::new();
    proof {
        assert(ims.deep_view() =~= Seq::<ImplV>::empty());
    }
    loop
        invariant
            cur@.len() <= t0@.len(),
            spec_impl_items(t0@, Seq::empty()) == spec_impl_items(cur@, ims.deep_view()),
        decreases cur@.len(),
    {
        reveal(spec_impl_items);
        match read_implementation(cur) {
            Err(e) => {
                if e.fatal {
                    return Err(e);
                } else {
                    return Ok((cur, ims));
                }
            },
            Ok((r, im)) => {
                let ghost prev = ims.deep_view();
                let ghost imv = im.deep_view();
                ims.push(im);
                proof {
                    assert(ims.deep_view() =~= prev.push(imv));
                }
                if r.len() < cur.len() {
                    cur = r;
                } else {
                    return Ok((r, ims));
                }
            },
        }
    }
}

/// A struct: `struct Name { variables }`, then its implementation blocks.
#[verifier::opaque]
pub open spec fn spec_read_struct(s: Seq<u8>) -> PRes<StructV> {
    let t = after_blank(s);
    match spec_tag(t, Kw::Struct) {
        None => PRes::NoParse(fail_at(Ctx::Token, t)),
        Some(after) => match spec_read_struct_or_trait_name(after_blank(after)) {
            PRes::NoParse(e) => PRes::NoParse(e),
            PRes::Parsed(r1, nm) => {
                let t1 = after_blank(r1);
                if at_byte(t1, '{' as u8) {
                    let t2 = after_blank(t1.skip(1));
                    match spec_struct_var_items(t2, Seq::empty()) {
                        PRes::NoParse(e) => PRes::NoParse(e),
                        PRes::Parsed(r2, vars) => {
                            let t3 = after_blank(r2);
                            if at_byte(t3, '}' as u8) {
                                match spec_impl_items(t3.skip(1), Seq::empty()) {
                                    PRes::NoParse(e) => PRes::NoParse(e),
                                    PRes::Parsed(r3, ims) => PRes::Parsed(
                                        r3,
                                        StructV {
                                            name: nm,
                                            variables: vars,
                                            implementations: ims,
                                        },
                                    ),
                                }
                            } else {
                                PRes::NoParse(fail_at(Ctx::Token, t3))
                            }
                        },
                    }
                } else {
                    PRes::NoParse(fail_at(Ctx::Token, t1))
                }
            },
        },
    }
}

/// Read a struct declaration.
#[verifier::rlimit(100)]
#[verifier::spinoff_prover]
pub fn read_struct<'a>(i: &'a [u8]) -> (r: Result<(&'a [u8], NLStruct), PErr>)
    ensures
        out_matches(r, spec_read_struct(i@)),
{
    reveal(spec_read_struct);
    reveal(spec_struct_var_items);
    reveal(spec_impl_items);
    let t = blank(i);
    match tag(t, Kw::Struct) {
        None => Err(PErr { fatal: false, ctx: Ctx::Token, rem: t.len() }),
        Some(after) => {
            match read_struct_or_trait_name(blank(after)) {
                Err(e) => Err(e),
                Ok((r1, nm)) => {
                    let t1 = blank(r1);
                    match eat_byte(t1, '{' as u8) {
                        None => Err(PErr { fatal: false, ctx: Ctx::Token, rem: t1.len() }),
                        Some(after_brace) => {
                            let t2 = blank(after_brace);
                            match struct_var_items(t2) {
                                Err(e) => Err(e),
                                Ok((r2, vars)) => {
                                    let t3 = blank(r2);
                                    match eat_byte(t3, '}' as u8) {
                                        None => Err(
                                            PErr { fatal: false, ctx: Ctx::Token, rem: t3.len() },
                                        ),
                                        Some(after_close) => {
                                            match impl_items(after_close) {
                                                Err(e) => Err(e),
                                                Ok((r3, ims)) => Ok(
                                                    (
                                                        r3,
                                                        NLStruct {
                                                            name: nm,
                                                            variables: vars,
                                                            implementations: ims,
                                                        },
                                                    ),
                                                ),
                                            }
                                        },
                                    }
                                },
                            }
                        },
                    }
                },
            }
        },
    }
}

/// A trait: `trait Name { members }`.
#[verifier::opaque]
pub open spec fn spec_read_trait(s: Seq<u8>) -> PRes<TraitV> {
    let t = after_blank(s);
    match spec_tag(t, Kw::Trait) {
        None => PRes::NoParse(fail_at(Ctx::Token, t)),
        Some(after) => match spec_read_struct_or_trait_name(after_blank(after)) {
            PRes::NoParse(e) => PRes::NoParse(e),
            PRes::Parsed(r1, nm) => {
                let t1 = after_blank(r1);
                if at_byte(t1, '{' as u8) {
                    let t2 = after_blank(t1.skip(1));
                    match spec_implementor_items(t2, Seq::empty()) {
                        PRes::NoParse(e) => PRes::NoParse(e),
                        PRes::Parsed(r2, ims) => {
                            let t3 = after_blank(r2);
                            if at_byte(t3, '}' as u8) {
                                PRes::Parsed(t3.skip(1), TraitV { name: nm, implementors: ims })
                            } else {
                                PRes::NoParse(fail_at(Ctx::Token, t3))
                            }
                        },
                    }
                } else {
                    PRes::NoParse(fail_at(Ctx::Token, t1))
                }
            },
        },
    }
}

/// Read a trait declaration.
#[verifier::rlimit(100)]
#[verifier::spinoff_prover]
pub fn read_trait<'a>(i: &'a [u8]) -> (r: Result<(&'a [u8], NLTrait), PErr>)
    ensures
        out_matches(r, spec_read_trait(i@)),
{
    reveal(spec_read_trait);
    reveal(spec_implementor_items);
    let t = blank(i);
    match tag(t, Kw::Trait) {
        None => Err(PErr { fatal: false, ctx: Ctx::Token, rem: t.len() }),
        Some(after) => {
            match read_struct_or_trait_name(blank(after)) {
                Err(e) => Err(e),
                Ok((r1, nm)) => {
                    let t1 = blank(r1);
                    match eat_byte(t1, '{' as u8) {
                        None => Err(PErr { fatal: false, ctx: Ctx::Token, rem: t1.len() }),
                        Some(after_brace) => {
                            let t2 = blank(after_brace);
                            match implementor_items(t2) {
                                Err(e) => Err(e),
                                Ok((r2, ims)) => {
                                    let t3 = blank(r2);
                                    match eat_byte(t3, '}' as u8) {
                                        Some(rest) => Ok(
                                            (rest, NLTrait { name: nm, implementors: ims }),
                                        ),
                                        None => Err(
                                            PErr { fatal: false, ctx: Ctx::Token, rem: t3.len() },
                                        ),
                                    }
                                },
                            }
                        },
                    }
                },
            }
        },
    }
}

/// One enum variant: a name with an optional payload of typed fields.
pub open spec fn spec_read_variant(s: Seq<u8>) -> PRes<EnumVariantV> {
    let t = after_blank(s);
    match spec_read_variable_name(t) {
        PRes::NoParse(e) => PRes::NoParse(e),
        PRes::Parsed(r1, nm) => {
            let t1 = after_blank(r1);
            match spec_read_argument_deceleration_list(t1) {
                PRes::Parsed(r2, args) => PRes::Parsed(
                    r2,
                    EnumVariantV { name: nm, arguments: args },
                ),
                PRes::NoParse(e) => if e.fatal {
                    PRes::NoParse(e)
                } else {
                    PRes::Parsed(t1, EnumVariantV { name: nm, arguments: Seq::empty() })
                },
            }
        },
    }
}

/// Read one enum variant.
pub fn read_variant<'a>(i: &'a [u8]) -> (r: Result<(&'a [u8], EnumVariant), PErr>)
    ensures
        out_matches(r, spec_read_variant(i@)),
{
    let t = blank(i);
    match read_variable_name(t) {
        Err(e) => Err(e),
        Ok((r1, nm)) => {
            let t1 = blank(r1);
            match read_argument_deceleration_list(t1) {
                Ok((r2, args)) => Ok((r2, EnumVariant { name: nm, arguments: args })),
                Err(e) => {
                    if e.fatal {
                        Err(e)
                    } else {
                        let empty_args: Vec<NLArgument> = Vec::new();
                        proof {
                            assert(empty_args.deep_view() =~= Seq::<ArgV>::empty());
                        }
                        Ok((t1, EnumVariant { name: nm, arguments: empty_args }))
                    }
                },
            }
        },
    }
}

/// Enum variants separated by bare commas; a variant with no comma after it
/// ends the list.
#[verifier::opaque]
pub open spec fn spec_variant_items(t: Seq<u8>, acc: Seq<EnumVariantV>) -> PRes<Seq<EnumVariantV>>
    decreases t.len(),
{
    match spec_read_variant(t) {
        PRes::NoParse(e) => if e.fatal {
            PRes::NoParse(e)
        } else {
            PRes::Parsed(t, acc)
        },
        PRes::Parsed(r, v) => {
            if at_byte(r, ',' as u8) {
                let r2 = r.skip(1);
                if r2.len() < t.len() {
                    spec_variant_items(r2, acc.push(v))
                } else {
                    PRes::Parsed(r2, acc.push(v))
                }
            } else {
                PRes::Parsed(r, acc.push(v))
            }
        },
    }
}

/// Read comma-separated enum variants.
fn variant_items<'a>(t0: &'a [u8]) -> (r: Result<(&'a [u8], Vec<EnumVariant>), PErr>)
    ensures
        match r {
            Ok(p) => spec_variant_items(t0@, Seq::empty()) == PRes::<
                Seq<EnumVariantV>,
            >::Parsed(p.0@, p.1.deep_view()),
            Err(e) => spec_variant_items(t0@, Seq::empty()) == PRes::<
                Seq<EnumVariantV>,
            >::NoParse(e),
        },
{
    let mut cur = t0;
    let mut vs: Vec<EnumVariant> = Vec::new();
    proof {
        assert(vs.deep_view() =~= Seq::<EnumVariantV>::empty());
    }
    loop
        invariant
            cur@.len() <= t0@.len(),
            spec_variant_items(t0@, Seq::empty()) == spec_variant_items(cur@, vs.deep_view()),
        decreases cur@.len(),
    {
        reveal(spec_variant_items);
        match read_variant(cur) {
            Err(e) => {
                if e.fatal {
                    return Err(e);
                } else {
                    return Ok((cur, vs));
                }
            },
            Ok((r, v)) => {
                let ghost prev = vs.deep_view();
                let ghost vv = v.deep_view();
                vs.push(v);
                proof {
                    assert(vs.deep_view() =~= prev.push(vv));
                }
                match eat_byte(r, ',' as u8) {
                    Some(r2) => {
                        if r2.len() < cur.len() {
                            cur = r2;
                        } else {
                            return Ok((r2, vs));
                        }
                    },
                    None => {
                        return Ok((r, vs));
                    },
                }
            },
        }
    }
}

/// An enum: `enum Name { variants }`.
#[verifier::opaque]
pub open spec fn spec_read_variant_enum(s: Seq<u8>) -> PRes<EnumV> {
    let t = after_blank(s);
    match spec_tag(t, Kw::Enum) {
        None => PRes::NoParse(fail_at(Ctx::Token, t)),
        Some(after) => match spec_read_method_name(after_blank(after)) {
            PRes::NoParse(e) => PRes::NoParse(e),
            PRes::Parsed(r1, nm) => {
                let t1 = after_blank(r1);
                if at_byte(t1, '{' as u8) {
                    let t2 = after_blank(t1.skip(1));
                    match spec_variant_items(t2, Seq::empty()) {
                        PRes::NoParse(e) => PRes::NoParse(e),
                        PRes::Parsed(r2, vs) => {
                            let t3 = after_blank(r2);
                            if at_byte(t3, '}' as u8) {
                                PRes::Parsed(t3.skip(1), EnumV { name: nm, variants: vs })
                            } else {
                                PRes::NoParse(fail_at(Ctx::Token, t3))
                            }
                        },
                    }
                } else {
                    PRes::NoParse(fail_at(Ctx::Token, t1))
                }
            },
        },
    }
}

/// Read an enum declaration.
#[verifier::rlimit(100)]
#[verifier::spinoff_prover]
pub fn read_variant_enum<'a>(i: &'a [u8]) -> (r: Result<(&'a [u8], NLEnum), PErr>)
    ensures
        out_matches(r, spec_read_variant_enum(i@)),
{
    reveal(spec_read_variant_enum);
    reveal(spec_variant_items);
    let t = blank(i);
    match tag(t, Kw::Enum) {
        None => Err(PErr { fatal: false, ctx: Ctx::Token, rem: t.len() }),
        Some(after) => {
            match read_method_name(blank(after)) {
                Err(e) => Err(e),
                Ok((r1, nm)) => {
                    let t1 = blank(r1);
                    match eat_byte(t1, '{' as u8) {
                        None => Err(PErr { fatal: false, ctx: Ctx::Token, rem: t1.len() }),
                        Some(after_brace) => {
                            let t2 = blank(after_brace);
                            match variant_items(t2) {
                                Err(e) => Err(e),
                                Ok((r2, vs)) => {
                                    let t3 = blank(r2);
                                    match eat_byte(t3, '}' as u8) {
                                        Some(rest) => Ok(
                                            (rest, NLEnum { name: nm, variants: vs }),
                                        ),
                                        None => Err(
                                            PErr { fatal: false, ctx: Ctx::Token, rem: t3.len() },
                                        ),
                                    }
                                },
                            }
                        },
                    }
                },
            }
        },
    }
}

} // verus!
