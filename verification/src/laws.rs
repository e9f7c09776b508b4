//! Laws of the root assembler, proved once and for all inputs.
use vstd::prelude::*;
use crate::err::{Ctx, PErr};
use crate::decl::spec_read_argument_declaration;
use crate::lex::{
    CharClass, Kw, PRes, after_blank, in_class, kw_at, scan_len, spec_blank, spec_comment,
    spec_comments, spec_read_variable_name,
};
use crate::views::{ArgV, TypeV};
use crate::root::{
    RootDeclV, empty_file, file_with, spec_parse_file_root, spec_parse_outcome, spec_root_items,
};
use crate::views::FileV;

verus! {

/// Empty input parses to the empty file, with no error: no structs, no
/// traits, no functions, no enums.
pub proof fn lemma_empty_input_is_empty_file()
    ensures
        spec_parse_outcome(Seq::<u8>::empty()) == Ok::<FileV, PErr>(empty_file()),
{
    reveal(spec_parse_file_root);
    let s = Seq::<u8>::empty();
    assert(scan_len(CharClass::Ws, s) == 0);
    assert(spec_comment(s) is None);
    assert(spec_comments(s) == 0);
    assert(after_blank(s) =~= s);
}

/// A declaration joins exactly one of the four lists and leaves the other
/// three, and the file's name, untouched.
pub proof fn lemma_file_with_no_cross_contamination(f: FileV, d: RootDeclV)
    ensures
        file_with(f, d).name == f.name,
        d is Struct ==> file_with(f, d) == (FileV {
            structs: f.structs.push(d->Struct_0),
            ..f
        }),
        d is Trait ==> file_with(f, d) == (FileV { traits: f.traits.push(d->Trait_0), ..f }),
        d is Function ==> file_with(f, d) == (FileV {
            functions: f.functions.push(d->Function_0),
            ..f
        }),
        d is Enum ==> file_with(f, d) == (FileV { enums: f.enums.push(d->Enum_0), ..f }),
{
}

/// Root declarations only accumulate: whatever was in each list when the
/// assembler took over is still there, in the same order and position, when
/// it is done.
pub proof fn lemma_root_items_accumulate(t: Seq<u8>, f: FileV)
    ensures
        spec_root_items(t, f) matches PRes::Parsed(r, f2) ==> {
            &&& f2.name == f.name
            &&& f2.structs.len() >= f.structs.len()
            &&& f2.structs.take(f.structs.len() as int) == f.structs
            &&& f2.traits.len() >= f.traits.len()
            &&& f2.traits.take(f.traits.len() as int) == f.traits
            &&& f2.functions.len() >= f.functions.len()
            &&& f2.functions.take(f.functions.len() as int) == f.functions
            &&& f2.enums.len() >= f.enums.len()
            &&& f2.enums.take(f.enums.len() as int) == f.enums
        },
    decreases t.len(),
{
    reveal(spec_root_items);
    match crate::root::spec_read_root_decl(t) {
        PRes::NoParse(e) => {
            if !e.fatal {
                assert(f.structs.take(f.structs.len() as int) =~= f.structs);
                assert(f.traits.take(f.traits.len() as int) =~= f.traits);
                assert(f.functions.take(f.functions.len() as int) =~= f.functions);
                assert(f.enums.take(f.enums.len() as int) =~= f.enums);
            }
        },
        PRes::Parsed(r, d) => {
            let fw = file_with(f, d);
            assert(fw.structs.take(f.structs.len() as int) =~= f.structs);
            assert(fw.traits.take(f.traits.len() as int) =~= f.traits);
            assert(fw.functions.take(f.functions.len() as int) =~= f.functions);
            assert(fw.enums.take(f.enums.len() as int) =~= f.enums);
            if r.len() < t.len() {
                lemma_root_items_accumulate(r, fw);
                match spec_root_items(r, fw) {
                    PRes::NoParse(_) => {},
                    PRes::Parsed(_, f2) => {
                    assert(f2.structs.take(f.structs.len() as int) =~= f2.structs.take(
                        fw.structs.len() as int,
                    ).take(f.structs.len() as int));
                    assert(f2.traits.take(f.traits.len() as int) =~= f2.traits.take(
                        fw.traits.len() as int,
                    ).take(f.traits.len() as int));
                    assert(f2.functions.take(f.functions.len() as int) =~= f2.functions.take(
                        fw.functions.len() as int,
                    ).take(f.functions.len() as int));
                    assert(f2.enums.take(f.enums.len() as int) =~= f2.enums.take(
                        fw.enums.len() as int,
                    ).take(f.enums.len() as int));
                    },
                }
            }
        },
    }
}

/// Input that no root declaration matches is rejected with a fatal
/// diagnostic carrying the root-declaration context, located where the
/// declaration was expected.
pub proof fn lemma_root_garbage_is_fatal(input: Seq<u8>)
    requires
        spec_parse_file_root(input) matches PRes::NoParse(e) && !e.fatal,
    ensures
        spec_parse_outcome(input) matches Err(pe) && pe.fatal && pe.ctx == Ctx::RootDeclaration,
{
}

/// Unread input left after the last declaration is rejected the same way:
/// the assembler runs until the input is exhausted or fails.
pub proof fn lemma_unread_input_is_fatal(input: Seq<u8>)
    requires
        spec_parse_file_root(input) matches PRes::Parsed(rest, f) && after_blank(rest).len() != 0,
    ensures
        spec_parse_outcome(input) matches Err(pe) && pe.fatal && pe.ctx == Ctx::RootDeclaration,
{
}

// ---------------------------------------------------------------------------
// Self-arguments and whitespace
// ---------------------------------------------------------------------------

/// A run of whitespace bytes only.
pub open spec fn all_ws(w: Seq<u8>) -> bool {
    forall|k: int| 0 <= k < w.len() ==> in_class(CharClass::Ws, #[trigger] w[k])
}

/// Scanning a class run through prepended whitespace counts the whitespace
/// first.
pub proof fn lemma_scan_ws_concat(w: Seq<u8>, x: Seq<u8>)
    requires
        all_ws(w),
    ensures
        scan_len(CharClass::Ws, w + x) == w.len() + scan_len(CharClass::Ws, x),
    decreases w.len(),
{
    if w.len() == 0 {
        assert(w + x =~= x);
    } else {
        assert((w + x)[0] == w[0]);
        assert((w + x).skip(1) =~= w.skip(1) + x);
        assert(all_ws(w.skip(1)));
        lemma_scan_ws_concat(w.skip(1), x);
    }
}

/// Leading whitespace is trivia: skipping trivia through it lands where
/// skipping trivia in the rest alone lands.
pub proof fn lemma_after_blank_ws(w: Seq<u8>, x: Seq<u8>)
    requires
        all_ws(w),
    ensures
        after_blank(w + x) == after_blank(x),
{
    lemma_scan_ws_concat(w, x);
    let n = scan_len(CharClass::Ws, x);
    crate::lex::lemma_scan_le(CharClass::Ws, x);
    assert((w + x).skip(w.len() + n as int) =~= x.skip(n as int));
    assert(spec_blank(w + x) == w.len() + spec_blank(x));
    crate::lex::lemma_blank_le(x);
    assert(after_blank(w + x) =~= after_blank(x));
}

/// The bytes that spell `self`.
pub open spec fn self_bytes() -> Seq<u8> {
    seq![('s' as u8), ('e' as u8), ('l' as u8), ('f' as u8)]
}

/// The bytes that spell `mut`.
pub open spec fn mut_bytes() -> Seq<u8> {
    seq![('m' as u8), ('u' as u8), ('t' as u8)]
}

/// A `&self` argument parses to the fixed self-argument whatever
/// whitespace stands around the reference marker, and whatever follows.
#[verifier::rlimit(100)]
pub proof fn lemma_self_argument_ignores_whitespace(w0: Seq<u8>, w1: Seq<u8>, rest: Seq<u8>)
    requires
        all_ws(w0),
        all_ws(w1),
    ensures
        spec_read_argument_declaration(w0 + seq![('&' as u8)] + w1 + self_bytes() + rest)
            == PRes::<ArgV>::Parsed(
            rest,
            ArgV { name: self_bytes(), nl_type: TypeV::SelfReference },
        ),
{
    reveal(spec_read_argument_declaration);
    let amp = seq![('&' as u8)];
    let s = w0 + amp + w1 + self_bytes() + rest;
    let tail = amp + w1 + self_bytes() + rest;
    assert(s =~= w0 + tail);
    lemma_after_blank_ws(w0, tail);
    // nothing of `tail` is trivia: it starts with the reference marker
    assert(scan_len(CharClass::Ws, tail) == 0);
    assert(spec_comment(tail) is None);
    assert(spec_comments(tail) == 0);
    assert(after_blank(tail) =~= tail);
    let t = after_blank(s);
    assert(t == tail);
    // no name starts at the reference marker
    assert(scan_len(CharClass::NameChar, t) == 0);
    assert(spec_read_variable_name(s) is NoParse);
    assert(t[0] == ('&' as u8));
    let sr = self_bytes() + rest;
    assert(t.skip(1) =~= w1 + sr);
    lemma_after_blank_ws(w1, sr);
    assert(scan_len(CharClass::Ws, sr) == 0);
    assert(spec_comment(sr) is None);
    assert(spec_comments(sr) == 0);
    assert(after_blank(sr) =~= sr);
    assert(after_blank(t.skip(1)) == sr);
    assert(kw_at(sr, Kw::SelfKw));
    assert(sr.skip(4) =~= rest);
    assert(sr.take(4) =~= self_bytes());
}

/// A `&mut self` argument parses to the fixed mutable self-argument
/// whatever whitespace stands around the markers, and whatever follows.
#[verifier::rlimit(100)]
pub proof fn lemma_mut_self_argument_ignores_whitespace(
    w0: Seq<u8>,
    w1: Seq<u8>,
    w2: Seq<u8>,
    rest: Seq<u8>,
)
    requires
        all_ws(w0),
        all_ws(w1),
        w2.len() > 0,
        all_ws(w2),
    ensures
        spec_read_argument_declaration(
            w0 + seq![('&' as u8)] + w1 + mut_bytes() + w2 + self_bytes() + rest,
        ) == PRes::<ArgV>::Parsed(
            rest,
            ArgV { name: self_bytes(), nl_type: TypeV::MutableSelfReference },
        ),
{
    reveal(spec_read_argument_declaration);
    let amp = seq![('&' as u8)];
    let s = w0 + amp + w1 + mut_bytes() + w2 + self_bytes() + rest;
    let tail = amp + w1 + mut_bytes() + w2 + self_bytes() + rest;
    assert(s =~= w0 + tail);
    lemma_after_blank_ws(w0, tail);
    assert(scan_len(CharClass::Ws, tail) == 0);
    assert(spec_comment(tail) is None);
    assert(spec_comments(tail) == 0);
    assert(after_blank(tail) =~= tail);
    let t = after_blank(s);
    assert(t == tail);
    assert(scan_len(CharClass::NameChar, t) == 0);
    assert(spec_read_variable_name(s) is NoParse);
    assert(t[0] == ('&' as u8));
    let mr = mut_bytes() + (w2 + (self_bytes() + rest));
    assert(t.skip(1) =~= w1 + mr);
    lemma_after_blank_ws(w1, mr);
    assert(scan_len(CharClass::Ws, mr) == 0);
    assert(spec_comment(mr) is None);
    assert(spec_comments(mr) == 0);
    assert(after_blank(mr) =~= mr);
    assert(after_blank(t.skip(1)) == mr);
    // `mut` is not `self`
    assert(mr[0] == ('m' as u8));
    assert(!kw_at(mr, Kw::SelfKw));
    assert(kw_at(mr, Kw::Mut));
    let sr = self_bytes() + rest;
    assert(mr.skip(3) =~= w2 + sr);
    lemma_after_blank_ws(w2, sr);
    assert(scan_len(CharClass::Ws, sr) == 0);
    assert(spec_comment(sr) is None);
    assert(spec_comments(sr) == 0);
    assert(after_blank(sr) =~= sr);
    assert(after_blank(mr.skip(3)) == sr);
    assert(kw_at(sr, Kw::SelfKw));
    assert(sr.skip(4) =~= rest);
    assert(sr.take(4) =~= self_bytes());
}

// ---------------------------------------------------------------------------
// Rendering primitive types back to their keywords
// ---------------------------------------------------------------------------

/// Whether the view is one of the closed primitive keywords the type
/// grammar matches exactly.
pub open spec fn is_primitive_type(t: TypeV) -> bool {
    ||| t is Boolean
    ||| t is I8
    ||| t is I16
    ||| t is I32
    ||| t is I64
    ||| t is U8
    ||| t is U16
    ||| t is U32
    ||| t is U64
    ||| t is F32
    ||| t is F64
}

/// The canonical spelling of a primitive type.
pub open spec fn render_primitive(t: TypeV) -> Seq<u8> {
    match t {
        TypeV::Boolean => seq![('b' as u8), ('o' as u8), ('o' as u8), ('l' as u8)],
        TypeV::I8 => seq![('i' as u8), ('8' as u8)],
        TypeV::I16 => seq![('i' as u8), ('1' as u8), ('6' as u8)],
        TypeV::I32 => seq![('i' as u8), ('3' as u8), ('2' as u8)],
        TypeV::I64 => seq![('i' as u8), ('6' as u8), ('4' as u8)],
        TypeV::U8 => seq![('u' as u8), ('8' as u8)],
        TypeV::U16 => seq![('u' as u8), ('1' as u8), ('6' as u8)],
        TypeV::U32 => seq![('u' as u8), ('3' as u8), ('2' as u8)],
        TypeV::U64 => seq![('u' as u8), ('6' as u8), ('4' as u8)],
        TypeV::F32 => seq![('f' as u8), ('3' as u8), ('2' as u8)],
        TypeV::F64 => seq![('f' as u8), ('6' as u8), ('4' as u8)],
        _ => Seq::empty(),
    }
}

/// Rendering a primitive type to its canonical spelling and reading it back
/// yields the same type, whatever follows, as long as what follows does not
/// extend the keyword into a longer word.
#[verifier::rlimit(100)]
pub proof fn lemma_primitive_type_round_trip(t: TypeV, rest: Seq<u8>)
    requires
        is_primitive_type(t),
        rest.len() > 0 ==> !in_class(CharClass::Alnum, rest[0]),
    ensures
        crate::ty::spec_read_primitive_type(render_primitive(t) + rest) == PRes::<
            TypeV,
        >::Parsed(rest, t),
{
    reveal_with_fuel(scan_len, 6);
    let s = render_primitive(t) + rest;
    let n = render_primitive(t).len() as int;
    assert(s.skip(n) =~= rest);
    if rest.len() > 0 {
        assert(s.skip(n)[0] == rest[0]);
    }
    assert(scan_len(CharClass::Alnum, s.skip(n)) == 0);
    match t {
        TypeV::Boolean => {
            assert(s.skip(1).skip(1).skip(1).skip(1) =~= rest);
            assert(scan_len(CharClass::Alnum, s) == 4);
        },
        TypeV::I8 => {
            assert(s.skip(1).skip(1) =~= rest);
            assert(scan_len(CharClass::Alnum, s) == 2);
        },
        TypeV::I16 => {
            assert(s.skip(1).skip(1).skip(1) =~= rest);
            assert(scan_len(CharClass::Alnum, s) == 3);
        },
        TypeV::I32 => {
            assert(s.skip(1).skip(1).skip(1) =~= rest);
            assert(scan_len(CharClass::Alnum, s) == 3);
        },
        TypeV::I64 => {
            assert(s.skip(1).skip(1).skip(1) =~= rest);
            assert(scan_len(CharClass::Alnum, s) == 3);
        },
        TypeV::U8 => {
            assert(s.skip(1).skip(1) =~= rest);
            assert(scan_len(CharClass::Alnum, s) == 2);
        },
        TypeV::U16 => {
            assert(s.skip(1).skip(1).skip(1) =~= rest);
            assert(scan_len(CharClass::Alnum, s) == 3);
        },
        TypeV::U32 => {
            assert(s.skip(1).skip(1).skip(1) =~= rest);
            assert(scan_len(CharClass::Alnum, s) == 3);
        },
        TypeV::U64 => {
            assert(s.skip(1).skip(1).skip(1) =~= rest);
            assert(scan_len(CharClass::Alnum, s) == 3);
        },
        TypeV::F32 => {
            assert(s.skip(1).skip(1).skip(1) =~= rest);
            assert(scan_len(CharClass::Alnum, s) == 3);
        },
        TypeV::F64 => {
            assert(s.skip(1).skip(1).skip(1) =~= rest);
            assert(scan_len(CharClass::Alnum, s) == 3);
        },
        _ => {},
    }
}

} // verus!
