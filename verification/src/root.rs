//! The root assembler: ordered choice over the top-level declaration kinds,
//! repeated until the input is exhausted, and the public entry point that
//! turns text into a file or a located diagnostic.
use vstd::prelude::*;
use vstd::string::*;
use crate::ast::{NLEnum, NLFile, NLFunction, NLStruct, NLTrait};
use crate::decl::{
    read_function, read_struct, read_trait, read_variant_enum, spec_read_function,
    spec_read_struct, spec_read_trait, spec_read_variant_enum,
};
use crate::err::{Ctx, PErr};
use crate::lex::{PRes, after_blank, blank};
use crate::views::{EnumV, FileV, FuncV, StructV, TraitV};

verus! {

broadcast use crate::lex::lemma_bytes_deep_view;

/// One declaration met at file root.
pub enum RootDeceleration {
    Struct(NLStruct),
    Trait(NLTrait),
    Function(NLFunction),
    Enum(NLEnum),
}

/// View of `RootDeceleration`.
pub enum RootDeclV {
    Struct(StructV),
    Trait(TraitV),
    Function(FuncV),
    Enum(EnumV),
}

impl DeepView for RootDeceleration {
    type V = RootDeclV;

    open spec fn deep_view(&self) -> RootDeclV {
        match self {
            RootDeceleration::Struct(v) => RootDeclV::Struct(v.deep_view()),
            RootDeceleration::Trait(v) => RootDeclV::Trait(v.deep_view()),
            RootDeceleration::Function(v) => RootDeclV::Function(v.deep_view()),
            RootDeceleration::Enum(v) => RootDeclV::Enum(v.deep_view()),
        }
    }
}

/// The ordered choice over root declarations: struct, trait, function,
/// enum; the first that matches wins, a fatal failure stops the search, and
/// when all fail the last failure is reported.
#[verifier::opaque]
pub open spec fn spec_read_root_decl(s: Seq<u8>) -> PRes<RootDeclV> {
    match spec_read_struct(s) {
        PRes::Parsed(r, v) => PRes::Parsed(r, RootDeclV::Struct(v)),
        PRes::NoParse(e1) => if e1.fatal {
            PRes::NoParse(e1)
        } else {
            match spec_read_trait(s) {
                PRes::Parsed(r, v) => PRes::Parsed(r, RootDeclV::Trait(v)),
                PRes::NoParse(e2) => if e2.fatal {
                    PRes::NoParse(e2)
                } else {
                    match spec_read_function(s) {
                        PRes::Parsed(r, v) => PRes::Parsed(r, RootDeclV::Function(v)),
                        PRes::NoParse(e3) => if e3.fatal {
                            PRes::NoParse(e3)
                        } else {
                            match spec_read_variant_enum(s) {
                                PRes::Parsed(r, v) => PRes::Parsed(r, RootDeclV::Enum(v)),
                                PRes::NoParse(e4) => PRes::NoParse(e4),
                            }
                        },
                    }
                },
            }
        },
    }
}

/// Read one root declaration.
pub fn read_root_decl<'a>(i: &'a [u8]) -> (r: Result<(&'a [u8], RootDeceleration), PErr>)
    ensures
        crate::lex::out_matches(r, spec_read_root_decl(i@)),
{
    reveal(spec_read_root_decl);
    match read_struct(i) {
        Ok((r, v)) => Ok((r, RootDeceleration::Struct(v))),
        Err(e1) => {
            if e1.fatal {
                Err(e1)
            } else {
                match read_trait(i) {
                    Ok((r, v)) => Ok((r, RootDeceleration::Trait(v))),
                    Err(e2) => {
                        if e2.fatal {
                            Err(e2)
                        } else {
                            match read_function(i) {
                                Ok((r, v)) => Ok((r, RootDeceleration::Function(v))),
                                Err(e3) => {
                                    if e3.fatal {
                                        Err(e3)
                                    } else {
                                        match read_variant_enum(i) {
                                            Ok((r, v)) => Ok((r, RootDeceleration::Enum(v))),
                                            Err(e4) => Err(e4),
                                        }
                                    }
                                },
                            }
                        }
                    },
                }
            }
        },
    }
}

/// A file with the given declaration added to the list of its kind, in
/// source order.
pub open spec fn file_with(f: FileV, d: RootDeclV) -> FileV {
    match d {
        RootDeclV::Struct(v) => FileV { structs: f.structs.push(v), ..f },
        RootDeclV::Trait(v) => FileV { traits: f.traits.push(v), ..f },
        RootDeclV::Function(v) => FileV { functions: f.functions.push(v), ..f },
        RootDeclV::Enum(v) => FileV { enums: f.enums.push(v), ..f },
    }
}

/// The file with no declarations and an empty name.
pub open spec fn empty_file() -> FileV {
    FileV {
        name: Seq::empty(),
        structs: Seq::empty(),
        traits: Seq::empty(),
        functions: Seq::empty(),
        enums: Seq::empty(),
    }
}

/// Root declarations, one after another until one fails to match; a fatal
/// failure aborts.
#[verifier::opaque]
pub open spec fn spec_root_items(t: Seq<u8>, f: FileV) -> PRes<FileV>
    decreases t.len(),
{
    match spec_read_root_decl(t) {
        PRes::NoParse(e) => if e.fatal {
            PRes::NoParse(e)
        } else {
            PRes::Parsed(t, f)
        },
        PRes::Parsed(r, d) => {
            if r.len() < t.len() {
                spec_root_items(r, file_with(f, d))
            } else {
                PRes::Parsed(r, file_with(f, d))
            }
        },
    }
}

/// The whole file: empty input is an empty file; otherwise at least one
/// declaration must parse, then declarations accumulate until none matches.
#[verifier::opaque]
pub open spec fn spec_parse_file_root(s: Seq<u8>) -> PRes<FileV> {
    if s.len() == 0 {
        PRes::Parsed(s, empty_file())
    } else {
        match spec_read_root_decl(s) {
            PRes::NoParse(e) => PRes::NoParse(e),
            PRes::Parsed(r, d) => {
                if r.len() < s.len() {
                    spec_root_items(r, file_with(empty_file(), d))
                } else {
                    PRes::Parsed(r, file_with(empty_file(), d))
                }
            },
        }
    }
}

/// Read the whole file; the returned file has an empty name.
pub fn parse_file_root<'a>(i: &'a [u8]) -> (r: Result<(&'a [u8], NLFile), PErr>)
    ensures
        crate::lex::out_matches(r, spec_parse_file_root(i@)),
{
    reveal(spec_parse_file_root);
    if i.len() == 0 {
        let f = NLFile {
            name: Vec::new(),
            structs: Vec::new(),
            traits: Vec::new(),
            functions: Vec::new(),
            enums: Vec::new(),
        };
        proof {
            assert(f.deep_view().name =~= empty_file().name);
            assert(f.deep_view().structs =~= empty_file().structs);
            assert(f.deep_view().traits =~= empty_file().traits);
            assert(f.deep_view().functions =~= empty_file().functions);
            assert(f.deep_view().enums =~= empty_file().enums);
            assert(f.deep_view() == empty_file());
        }
        return Ok((i, f));
    }
    match read_root_decl(i) {
        Err(e) => Err(e),
        Ok((r0, d0)) => {
            let mut structs: Vec<NLStruct> = Vec::new();
            let mut traits: Vec<NLTrait> = Vec::new();
            let mut functions: Vec<NLFunction> = Vec::new();
            let mut enums: Vec<NLEnum> = Vec::new();
            let ghost d0v = d0.deep_view();
            match d0 {
                RootDeceleration::Struct(v) => structs.push(v),
                RootDeceleration::Trait(v) => traits.push(v),
                RootDeceleration::Function(v) => functions.push(v),
                RootDeceleration::Enum(v) => enums.push(v),
            }
            let ghost f0 = FileV {
                name: Seq::empty(),
                structs: structs.deep_view(),
                traits: traits.deep_view(),
                functions: functions.deep_view(),
                enums: enums.deep_view(),
            };
            proof {
                assert(f0.structs =~= file_with(empty_file(), d0v).structs);
                assert(f0.traits =~= file_with(empty_file(), d0v).traits);
                assert(f0.functions =~= file_with(empty_file(), d0v).functions);
                assert(f0.enums =~= file_with(empty_file(), d0v).enums);
                assert(f0 == file_with(empty_file(), d0v));
            }
            if !(r0.len() < i.len()) {
                let f = NLFile { name: Vec::new(), structs, traits, functions, enums };
                proof {
                    assert(f.deep_view().name =~= f0.name);
                    assert(f.deep_view() == f0);
                }
                return Ok((r0, f));
            }
            let mut cur = r0;
            loop
                invariant
                    cur@.len() < i@.len(),
                    spec_parse_file_root(i@) == spec_root_items(
                        cur@,
                        FileV {
                            name: Seq::empty(),
                            structs: structs.deep_view(),
                            traits: traits.deep_view(),
                            functions: functions.deep_view(),
                            enums: enums.deep_view(),
                        },
                    ),
                decreases cur@.len(),
            {
                reveal(spec_root_items);
                let ghost fcur = FileV {
                    name: Seq::empty(),
                    structs: structs.deep_view(),
                    traits: traits.deep_view(),
                    functions: functions.deep_view(),
                    enums: enums.deep_view(),
                };
                match read_root_decl(cur) {
                    Err(e) => {
                        if e.fatal {
                            return Err(e);
                        } else {
                            let f = NLFile {
                                name: Vec::new(),
                                structs,
                                traits,
                                functions,
                                enums,
                            };
                            proof {
                                assert(f.deep_view().name =~= fcur.name);
                                assert(f.deep_view() == fcur);
                            }
                            return Ok((cur, f));
                        }
                    },
                    Ok((r, d)) => {
                        let ghost dv = d.deep_view();
                        let ghost sprev = structs.deep_view();
                        let ghost tprev = traits.deep_view();
                        let ghost fprev = functions.deep_view();
                        let ghost eprev = enums.deep_view();
                        match d {
                            RootDeceleration::Struct(v) => structs.push(v),
                            RootDeceleration::Trait(v) => traits.push(v),
                            RootDeceleration::Function(v) => functions.push(v),
                            RootDeceleration::Enum(v) => enums.push(v),
                        }
                        proof {
                            let fnext = FileV {
                                name: Seq::empty(),
                                structs: structs.deep_view(),
                                traits: traits.deep_view(),
                                functions: functions.deep_view(),
                                enums: enums.deep_view(),
                            };
                            match dv {
                                RootDeclV::Struct(v) => {
                                    assert(structs.deep_view() =~= sprev.push(v));
                                },
                                RootDeclV::Trait(v) => {
                                    assert(traits.deep_view() =~= tprev.push(v));
                                },
                                RootDeclV::Function(v) => {
                                    assert(functions.deep_view() =~= fprev.push(v));
                                },
                                RootDeclV::Enum(v) => {
                                    assert(enums.deep_view() =~= eprev.push(v));
                                },
                            }
                            assert(fnext == file_with(fcur, dv));
                        }
                        if r.len() < cur.len() {
                            cur = r;
                        } else {
                            let f = NLFile {
                                name: Vec::new(),
                                structs,
                                traits,
                                functions,
                                enums,
                            };
                            proof {
                                assert(f.deep_view().name =~= file_with(fcur, dv).name);
                                assert(f.deep_view() == file_with(fcur, dv));
                            }
                            return Ok((r, f));
                        }
                    },
                }
            }
        },
    }
}

// ---------------------------------------------------------------------------
// The public entry point
// ---------------------------------------------------------------------------

/// The outcome of a parse, before the file is named: the file's view, or
/// the failure that stopped it. A recoverable failure of the root choice,
/// or unread input after the last declaration, is reported against the
/// root-declaration context.
pub open spec fn spec_parse_outcome(input: Seq<u8>) -> Result<FileV, PErr> {
    match spec_parse_file_root(input) {
        PRes::NoParse(e) => if e.fatal {
            Err(e)
        } else {
            Err(
                PErr {
                    fatal: true,
                    ctx: Ctx::RootDeclaration,
                    rem: after_blank(input).len() as usize,
                },
            )
        },
        PRes::Parsed(rest, f) => {
            if after_blank(rest).len() == 0 {
                Ok(f)
            } else {
                Err(
                    PErr {
                        fatal: true,
                        ctx: Ctx::RootDeclaration,
                        rem: after_blank(rest).len() as usize,
                    },
                )
            }
        },
    }
}

/// The rendered diagnostic for a failure: the context text, a separator,
/// then an excerpt of the unread input, capped at eighty bytes.
pub open spec fn spec_error_message(input: Seq<u8>, e: PErr) -> Seq<u8> {
    e.ctx.spec_text() + ": ".spec_bytes() + spec_excerpt(input, e.rem as nat)
}

/// Up to eighty bytes of the unread input.
pub open spec fn spec_excerpt(input: Seq<u8>, rem: nat) -> Seq<u8> {
    let start: int = if rem <= input.len() {
        input.len() - rem
    } else {
        0
    };
    let tail = input.skip(start);
    if tail.len() <= 80 {
        tail
    } else {
        tail.take(80)
    }
}

/// A parse failure as handed to the caller: a rendered message, the static
/// context, and the byte offset of the failure in the input.
#[derive(Debug)]
pub struct ParseError {
    pub message: Vec<u8>,
    pub ctx: Ctx,
    pub offset: usize,
}

impl ParseError {
    /// The rendered message.
    pub fn get_message(&self) -> (r: &Vec<u8>)
        ensures
            r@ == self.message@,
    {
        &self.message
    }

    /// The byte offset of the failure in the parsed input.
    pub fn get_offset(&self) -> (r: usize)
        ensures
            r == self.offset,
    {
        self.offset
    }
}

/// Append bytes to a buffer.
fn push_bytes(v: &mut Vec<u8>, s: &[u8])
    ensures
        final(v)@ == old(v)@ + s@,
{
    let mut k: usize = 0;
    proof {
        assert(v@ + s@.take(0) =~= v@);
    }
    while k < s.len()
        invariant
            0 <= k <= s@.len(),
            v@ == old(v)@ + s@.take(k as int),
        decreases s@.len() - k,
    {
        v.push(s[k]);
        proof {
            assert(old(v)@ + s@.take(k + 1) =~= (old(v)@ + s@.take(k as int)).push(s@[k as int]));
        }
        k += 1;
    }
    proof {
        assert(s@.take(s@.len() as int) =~= s@);
    }
}

/// Render the diagnostic for a failure.
fn render_error(input: &[u8], e: PErr) -> (r: ParseError)
    ensures
        r.ctx == e.ctx,
        r.offset == if e.rem <= input@.len() { input@.len() - e.rem } else { 0int },
        r.message@ == spec_error_message(input@, e),
{
    let mut message: Vec<u8> = Vec::new();
    push_bytes(&mut message, e.ctx.text());
    push_bytes(&mut message, ": ".as_bytes());
    let off = if e.rem <= input.len() {
        input.len() - e.rem
    } else {
        0
    };
    let end = if input.len() - off > 80 {
        off + 80
    } else {
        input.len()
    };
    let excerpt = vstd::slice::slice_subrange(input, off, end);
    push_bytes(&mut message, excerpt);
    proof {
        assert(excerpt@ =~= spec_excerpt(input@, e.rem as nat));
        assert(message@ =~= spec_error_message(input@, e));
    }
    ParseError { message, ctx: e.ctx, offset: off }
}

/// Parse a source buffer into a file named after `file_name`.
///
/// On success the returned tree is exactly what the root grammar yields for
/// the input, with the given name attached; on failure the diagnostic
/// carries the failing context, its byte offset, and a rendered message
/// with a source excerpt.
pub fn parse_string(input: &[u8], file_name: &[u8]) -> (r: Result<NLFile, ParseError>)
    ensures
        match r {
            Ok(f) => spec_parse_outcome(input@) matches Ok(fv) && f.deep_view() == (FileV {
                name: file_name@,
                ..fv
            }),
            Err(pe) => spec_parse_outcome(input@) matches Err(e) && pe.ctx == e.ctx
                && pe.message@ == spec_error_message(input@, e) && pe.offset == if e.rem
                <= input@.len() {
                input@.len() - e.rem
            } else {
                0int
            },
        },
{
    match parse_file_root(input) {
        Err(e) => {
            if e.fatal {
                Err(render_error(input, e))
            } else {
                let t = blank(input);
                Err(
                    render_error(
                        input,
                        PErr { fatal: true, ctx: Ctx::RootDeclaration, rem: t.len() },
                    ),
                )
            }
        },
        Ok((rest, f)) => {
            let t = blank(rest);
            if t.len() == 0 {
                let mut named = f;
                named.name = vstd::slice::slice_to_vec(file_name);
                proof {
                    let fv = spec_parse_outcome(input@)->Ok_0;
                    assert(named.deep_view().structs == fv.structs);
                    assert(named.deep_view() == FileV { name: file_name@, ..fv });
                }
                Ok(named)
            } else {
                Err(
                    render_error(
                        input,
                        PErr { fatal: true, ctx: Ctx::RootDeclaration, rem: t.len() },
                    ),
                )
            }
        },
    }
}

} // verus!
