//! The expression grammar: blocks, assignment, tuples, unary and binary
//! operators, control flow, match, and function calls; mutually recursive
//! with blocks.
//!
//! `read_operation` is an ordered choice; the first alternative that matches
//! wins, and a fatal failure stops the search. Binary operands come from a
//! restricted sub-grammar that excludes control flow and binary operators,
//! so binary expressions are exactly `operand <symbol> operand`, with no
//! chaining and no precedence.
//!
//! Each specification function guards its recursive calls on the input
//! having shrunk. The grammar always consumes input before recursing, so the
//! guards only make the recursion visibly well-founded; the executable
//! readers test the same condition and mirror the specification exactly.
use vstd::prelude::*;
use crate::ast::{
    ForLoop, FunctionCall, IfStatement, Match, MatchBranch, MatchEnumBranch, NLBlock, NLOperation,
    NLType, OpAssignment, OpOperator, OpVariable,
};
use crate::err::{Ctx, PErr, fail_at};
use crate::lex::{
    CharClass, Kw, PRes, after_blank, at_byte, blank, eat_byte, kw_at, out_matches, paren_inner,
    scan, scan_len, spec_paren_inner, spec_read_variable_name, spec_tag, read_variable_name, tag,
};
use crate::literal::{spec_read_constant, spec_read_constant_raw, read_constant, read_constant_raw};
use crate::ty::{spec_read_variable_type, read_variable_type};
use crate::views::{
    AssignV, BlockV, ForV, IfV, MatchBranchV, MatchEnumBranchV, MatchV, OperV, OpV, TypeV, VarV,
    CallV, WhileV, branch_seq_view, lemma_branch_seq_view_push, lemma_op_seq_view_push,
    op_seq_view, type_seq_view, name_seq_view,
};
use crate::ast::WhileLoop;

verus! {

broadcast use crate::lex::lemma_bytes_deep_view;

/// The failure of a parenthesized region: either the opening mark is
/// missing, or no closing mark follows.
pub open spec fn spec_paren_fail(s: Seq<u8>) -> PErr {
    if at_byte(s, '(' as u8) {
        PErr { fatal: false, ctx: Ctx::Token, rem: 0 }
    } else {
        fail_at(Ctx::Token, s)
    }
}

/// Make a paren-region failure.
pub fn paren_fail(i: &[u8]) -> (e: PErr)
    ensures
        e == spec_paren_fail(i@),
{
    if i.len() > 0 && i[0] == ('(' as u8) {
        PErr { fatal: false, ctx: Ctx::Token, rem: 0 }
    } else {
        PErr { fatal: false, ctx: Ctx::Token, rem: i.len() }
    }
}

// ---------------------------------------------------------------------------
// Names in parentheses
// ---------------------------------------------------------------------------

/// Names separated by trivia-wrapped commas; a name with no comma after it
/// ends the list, and whatever follows it inside the region is discarded.
pub open spec fn spec_comma_name_items(t: Seq<u8>, acc: Seq<Seq<u8>>) -> Seq<Seq<u8>>
    decreases t.len(),
{
    match spec_read_variable_name(t) {
        PRes::Parsed(r1, nm) => {
            let r2 = after_blank(r1);
            if at_byte(r2, ',' as u8) {
                let r3 = after_blank(r2.skip(1));
                if r3.len() < t.len() {
                    spec_comma_name_items(r3, acc.push(nm))
                } else {
                    acc.push(nm)
                }
            } else {
                acc.push(nm)
            }
        },
        PRes::NoParse(_) => acc,
    }
}

/// A parenthesized, comma-separated list of variable names.
#[verifier::opaque]
pub open spec fn spec_read_tuple_of_variable_names(s: Seq<u8>) -> PRes<Seq<Seq<u8>>> {
    match spec_paren_inner(s) {
        Some(p) => PRes::Parsed(p.1, spec_comma_name_items(p.0, Seq::empty())),
        None => PRes::NoParse(spec_paren_fail(s)),
    }
}

/// Names separated by bare commas (no trivia around the comma); a name with
/// no comma after it ends the list.
pub open spec fn spec_bare_name_items(t: Seq<u8>, acc: Seq<Seq<u8>>) -> Seq<Seq<u8>>
    decreases t.len(),
{
    match spec_read_variable_name(t) {
        PRes::Parsed(r1, nm) => {
            if at_byte(r1, ',' as u8) {
                let r2 = r1.skip(1);
                if r2.len() < t.len() {
                    spec_bare_name_items(r2, acc.push(nm))
                } else {
                    acc.push(nm)
                }
            } else {
                acc.push(nm)
            }
        },
        PRes::NoParse(_) => acc,
    }
}

/// Read names separated by trivia-wrapped commas.
pub fn comma_name_items(t: &[u8]) -> (r: Vec<Vec<u8>>)
    ensures
        r.deep_view() == spec_comma_name_items(t@, Seq::empty()),
    decreases t@.len(),
{
    let mut acc: Vec<Vec<u8>> = Vec::new();
    let mut cur = t;
    proof {
        assert(acc.deep_view() =~= Seq::<Seq<u8>>::empty());
    }
    loop
        invariant
            cur@.len() <= t@.len(),
            spec_comma_name_items(t@, Seq::empty()) == spec_comma_name_items(
                cur@,
                acc.deep_view(),
            ),
        decreases cur@.len(),
    {
        match read_variable_name(cur) {
            Ok((r1, nm)) => {
                let ghost prev = acc.deep_view();
                let ghost nmv = nm@;
                let r2 = blank(r1);
                acc.push(nm);
                proof {
                    assert(acc.deep_view() =~= prev.push(nmv));
                }
                match eat_byte(r2, ',' as u8) {
                    Some(r2b) => {
                        let r3 = blank(r2b);
                        if r3.len() < cur.len() {
                            cur = r3;
                        } else {
                            return acc;
                        }
                    },
                    None => {
                        return acc;
                    },
                }
            },
            Err(_) => {
                return acc;
            },
        }
    }
}

/// Read names separated by bare commas.
pub fn bare_name_items(t: &[u8]) -> (r: Vec<Vec<u8>>)
    ensures
        r.deep_view() == spec_bare_name_items(t@, Seq::empty()),
    decreases t@.len(),
{
    let mut acc: Vec<Vec<u8>> = Vec::new();
    let mut cur = t;
    proof {
        assert(acc.deep_view() =~= Seq::<Seq<u8>>::empty());
    }
    loop
        invariant
            cur@.len() <= t@.len(),
            spec_bare_name_items(t@, Seq::empty()) == spec_bare_name_items(cur@, acc.deep_view()),
        decreases cur@.len(),
    {
        match read_variable_name(cur) {
            Ok((r1, nm)) => {
                let ghost prev = acc.deep_view();
                let ghost nmv = nm@;
                acc.push(nm);
                proof {
                    assert(acc.deep_view() =~= prev.push(nmv));
                }
                match eat_byte(r1, ',' as u8) {
                    Some(r2) => {
                        if r2.len() < cur.len() {
                            cur = r2;
                        } else {
                            return acc;
                        }
                    },
                    None => {
                        return acc;
                    },
                }
            },
            Err(_) => {
                return acc;
            },
        }
    }
}

/// Read a parenthesized, comma-separated list of variable names.
pub fn read_tuple_of_variable_names<'a>(i: &'a [u8]) -> (r: Result<(&'a [u8], Vec<Vec<u8>>), PErr>)
    ensures
        out_matches(r, spec_read_tuple_of_variable_names(i@)),
{
    reveal_with_fuel(spec_read_tuple_of_variable_names, 1);

    match paren_inner(i) {
        Some((inner, rest)) => Ok((rest, comma_name_items(inner))),
        None => Err(paren_fail(i)),
    }
}

// ---------------------------------------------------------------------------
// Operator symbols
// ---------------------------------------------------------------------------

pub open spec fn sym1(sym: Seq<u8>, a: char) -> bool {
    sym.len() == 1 && sym[0] == (a as u8)
}

pub open spec fn sym2(sym: Seq<u8>, a: char, b: char) -> bool {
    sym.len() == 2 && sym[0] == (a as u8) && sym[1] == (b as u8)
}

/// Dispatch of a captured symbol run to a binary operator, exactly as the
/// operator vocabulary defines it.
pub open spec fn spec_binary_operator_of(sym: Seq<u8>, a: OpV, b: OpV) -> Option<OperV> {
    if sym2(sym, '=', '=') {
        Some(OperV::CompareEqual(Box::new(a), Box::new(b)))
    } else if sym2(sym, '!', '=') {
        Some(OperV::CompareNotEqual(Box::new(a), Box::new(b)))
    } else if sym2(sym, '>', '=') {
        Some(OperV::CompareGreaterEqual(Box::new(a), Box::new(b)))
    } else if sym2(sym, '<', '=') {
        Some(OperV::CompareLessEqual(Box::new(a), Box::new(b)))
    } else if sym1(sym, '>') {
        Some(OperV::CompareGreater(Box::new(a), Box::new(b)))
    } else if sym1(sym, '<') {
        Some(OperV::CompareLess(Box::new(a), Box::new(b)))
    } else if sym2(sym, '&', '&') {
        Some(OperV::LogicalAnd(Box::new(a), Box::new(b)))
    } else if sym2(sym, '|', '|') {
        Some(OperV::LogicalOr(Box::new(a), Box::new(b)))
    } else if sym2(sym, '^', '^') {
        Some(OperV::LogicalXor(Box::new(a), Box::new(b)))
    } else if sym1(sym, '&') {
        Some(OperV::BitAnd(Box::new(a), Box::new(b)))
    } else if sym1(sym, '|') {
        Some(OperV::BitOr(Box::new(a), Box::new(b)))
    } else if sym1(sym, '^') {
        Some(OperV::BitXor(Box::new(a), Box::new(b)))
    } else if sym2(sym, '<', '<') {
        Some(OperV::BitLeftShift(Box::new(a), Box::new(b)))
    } else if sym2(sym, '>', '>') {
        Some(OperV::BitRightShift(Box::new(a), Box::new(b)))
    } else if sym1(sym, '+') {
        Some(OperV::ArithmeticAdd(Box::new(a), Box::new(b)))
    } else if sym1(sym, '-') {
        Some(OperV::ArithmeticSub(Box::new(a), Box::new(b)))
    } else if sym1(sym, '%') {
        Some(OperV::ArithmeticMod(Box::new(a), Box::new(b)))
    } else if sym1(sym, '/') {
        Some(OperV::ArithmeticDiv(Box::new(a), Box::new(b)))
    } else if sym1(sym, '*') {
        Some(OperV::ArithmeticMul(Box::new(a), Box::new(b)))
    } else if sym2(sym, '.', '.') {
        Some(OperV::Range(Box::new(a), Box::new(b)))
    } else {
        None
    }
}

/// Dispatch a captured symbol run to a binary operator.
pub fn binary_operator_of(sym: &[u8], a: NLOperation, b: NLOperation) -> (r: Option<NLOperation>)
    ensures
        match r {
            Some(x) => spec_binary_operator_of(sym@, a.deep_view(), b.deep_view()) matches Some(o)
                && x.deep_view() == OpV::Operator(o),
            None => spec_binary_operator_of(sym@, a.deep_view(), b.deep_view()) is None,
        },
{
    let l = sym.len();
    if l == 2 && sym[0] == ('=' as u8) && sym[1] == ('=' as u8) {
        Some(NLOperation::Operator(OpOperator::CompareEqual(Box::new(a), Box::new(b))))
    } else if l == 2 && sym[0] == ('!' as u8) && sym[1] == ('=' as u8) {
        Some(NLOperation::Operator(OpOperator::CompareNotEqual(Box::new(a), Box::new(b))))
    } else if l == 2 && sym[0] == ('>' as u8) && sym[1] == ('=' as u8) {
        Some(NLOperation::Operator(OpOperator::CompareGreaterEqual(Box::new(a), Box::new(b))))
    } else if l == 2 && sym[0] == ('<' as u8) && sym[1] == ('=' as u8) {
        Some(NLOperation::Operator(OpOperator::CompareLessEqual(Box::new(a), Box::new(b))))
    } else if l == 1 && sym[0] == ('>' as u8) {
        Some(NLOperation::Operator(OpOperator::CompareGreater(Box::new(a), Box::new(b))))
    } else if l == 1 && sym[0] == ('<' as u8) {
        Some(NLOperation::Operator(OpOperator::CompareLess(Box::new(a), Box::new(b))))
    } else if l == 2 && sym[0] == ('&' as u8) && sym[1] == ('&' as u8) {
        Some(NLOperation::Operator(OpOperator::LogicalAnd(Box::new(a), Box::new(b))))
    } else if l == 2 && sym[0] == ('|' as u8) && sym[1] == ('|' as u8) {
        Some(NLOperation::Operator(OpOperator::LogicalOr(Box::new(a), Box::new(b))))
    } else if l == 2 && sym[0] == ('^' as u8) && sym[1] == ('^' as u8) {
        Some(NLOperation::Operator(OpOperator::LogicalXor(Box::new(a), Box::new(b))))
    } else if l == 1 && sym[0] == ('&' as u8) {
        Some(NLOperation::Operator(OpOperator::BitAnd(Box::new(a), Box::new(b))))
    } else if l == 1 && sym[0] == ('|' as u8) {
        Some(NLOperation::Operator(OpOperator::BitOr(Box::new(a), Box::new(b))))
    } else if l == 1 && sym[0] == ('^' as u8) {
        Some(NLOperation::Operator(OpOperator::BitXor(Box::new(a), Box::new(b))))
    } else if l == 2 && sym[0] == ('<' as u8) && sym[1] == ('<' as u8) {
        Some(NLOperation::Operator(OpOperator::BitLeftShift(Box::new(a), Box::new(b))))
    } else if l == 2 && sym[0] == ('>' as u8) && sym[1] == ('>' as u8) {
        Some(NLOperation::Operator(OpOperator::BitRightShift(Box::new(a), Box::new(b))))
    } else if l == 1 && sym[0] == ('+' as u8) {
        Some(NLOperation::Operator(OpOperator::ArithmeticAdd(Box::new(a), Box::new(b))))
    } else if l == 1 && sym[0] == ('-' as u8) {
        Some(NLOperation::Operator(OpOperator::ArithmeticSub(Box::new(a), Box::new(b))))
    } else if l == 1 && sym[0] == ('%' as u8) {
        Some(NLOperation::Operator(OpOperator::ArithmeticMod(Box::new(a), Box::new(b))))
    } else if l == 1 && sym[0] == ('/' as u8) {
        Some(NLOperation::Operator(OpOperator::ArithmeticDiv(Box::new(a), Box::new(b))))
    } else if l == 1 && sym[0] == ('*' as u8) {
        Some(NLOperation::Operator(OpOperator::ArithmeticMul(Box::new(a), Box::new(b))))
    } else if l == 2 && sym[0] == ('.' as u8) && sym[1] == ('.' as u8) {
        Some(NLOperation::Operator(OpOperator::Range(Box::new(a), Box::new(b))))
    } else {
        None
    }
}

/// Dispatch of a captured symbol run to a unary operator.
pub open spec fn spec_unary_operator_of(sym: Seq<u8>, a: OpV) -> Option<OperV> {
    if sym1(sym, '!') {
        Some(OperV::LogicalNegate(Box::new(a)))
    } else if sym1(sym, '~') {
        Some(OperV::BitNegate(Box::new(a)))
    } else if sym1(sym, '-') {
        Some(OperV::ArithmeticNegate(Box::new(a)))
    } else {
        None
    }
}

/// Dispatch a captured symbol run to a unary operator.
pub fn unary_operator_of(sym: &[u8], a: NLOperation) -> (r: Option<NLOperation>)
    ensures
        match r {
            Some(x) => spec_unary_operator_of(sym@, a.deep_view()) matches Some(o)
                && x.deep_view() == OpV::Operator(o),
            None => spec_unary_operator_of(sym@, a.deep_view()) is None,
        },
{
    let l = sym.len();
    if l == 1 && sym[0] == ('!' as u8) {
        Some(NLOperation::Operator(OpOperator::LogicalNegate(Box::new(a))))
    } else if l == 1 && sym[0] == ('~' as u8) {
        Some(NLOperation::Operator(OpOperator::BitNegate(Box::new(a))))
    } else if l == 1 && sym[0] == ('-' as u8) {
        Some(NLOperation::Operator(OpOperator::ArithmeticNegate(Box::new(a))))
    } else {
        None
    }
}

// ---------------------------------------------------------------------------
// Simple operations
// ---------------------------------------------------------------------------

/// A variable read: trivia, then a name.
pub open spec fn spec_read_variable_access_raw(s: Seq<u8>) -> PRes<VarV> {
    match spec_read_variable_name(s) {
        PRes::Parsed(r, nm) => PRes::Parsed(r, VarV { name: nm }),
        PRes::NoParse(e) => PRes::NoParse(e),
    }
}

/// Read a variable by name.
pub fn read_variable_access_raw<'a>(i: &'a [u8]) -> (r: Result<(&'a [u8], OpVariable), PErr>)
    ensures
        out_matches(r, spec_read_variable_access_raw(i@)),
{
    match read_variable_name(i) {
        Ok((rest, nm)) => Ok((rest, OpVariable { name: nm })),
        Err(e) => Err(e),
    }
}

/// A variable read, as an operation.
pub open spec fn spec_read_variable_access(s: Seq<u8>) -> PRes<OpV> {
    match spec_read_variable_access_raw(s) {
        PRes::Parsed(r, v) => PRes::Parsed(r, OpV::VariableAccess(v)),
        PRes::NoParse(e) => PRes::NoParse(e),
    }
}

/// Read a variable access operation.
pub fn read_variable_access<'a>(i: &'a [u8]) -> (r: Result<(&'a [u8], NLOperation), PErr>)
    ensures
        out_matches(r, spec_read_variable_access(i@)),
{
    match read_variable_access_raw(i) {
        Ok((rest, v)) => Ok((rest, NLOperation::VariableAccess(v))),
        Err(e) => Err(e),
    }
}

/// The `break` keyword, with no leading trivia of its own.
pub open spec fn spec_read_break_keyword(s: Seq<u8>) -> PRes<OpV> {
    match spec_tag(s, Kw::Break) {
        Some(rest) => PRes::Parsed(rest, OpV::Break),
        None => PRes::NoParse(fail_at(Ctx::NotBreak, s)),
    }
}

/// Read the `break` keyword.
pub fn read_break_keyword<'a>(i: &'a [u8]) -> (r: Result<(&'a [u8], NLOperation), PErr>)
    ensures
        out_matches(r, spec_read_break_keyword(i@)),
{
    match tag(i, Kw::Break) {
        Some(rest) => Ok((rest, NLOperation::Break)),
        None => Err(PErr { fatal: false, ctx: Ctx::NotBreak, rem: i.len() }),
    }
}

/// A function call: a (possibly dotted) path, then bare-name arguments in
/// parentheses.
#[verifier::opaque]
pub open spec fn spec_read_function_call(s: Seq<u8>) -> PRes<OpV> {
    match spec_read_variable_name(s) {
        PRes::Parsed(r1, path) => {
            let r2 = after_blank(r1);
            match spec_paren_inner(r2) {
                Some(p) => PRes::Parsed(
                    p.1,
                    OpV::FunctionCall(
                        CallV { path, arguments: spec_bare_name_items(p.0, Seq::empty()) },
                    ),
                ),
                None => PRes::NoParse(spec_paren_fail(r2)),
            }
        },
        PRes::NoParse(e) => PRes::NoParse(e),
    }
}

/// Read a function call.
pub fn read_function_call<'a>(i: &'a [u8]) -> (r: Result<(&'a [u8], NLOperation), PErr>)
    ensures
        out_matches(r, spec_read_function_call(i@)),
{
    reveal_with_fuel(spec_read_function_call, 1);

    match read_variable_name(i) {
        Ok((r1, path)) => {
            let r2 = blank(r1);
            match paren_inner(r2) {
                Some((inner, rest)) => {
                    let args = bare_name_items(inner);
                    proof {
                        assert(name_seq_view(args@) =~= args.deep_view());
                    }
                    Ok((rest, NLOperation::FunctionCall(FunctionCall { path, arguments: args })))
                },
                None => Err(paren_fail(r2)),
            }
        },
        Err(e) => Err(e),
    }
}

// ---------------------------------------------------------------------------
// The mutually recursive operation grammar
// ---------------------------------------------------------------------------

/// Views of variable names as assignment targets.
pub open spec fn names_to_vars(ns: Seq<Seq<u8>>) -> Seq<VarV> {
    Seq::new(ns.len(), |k: int| VarV { name: ns[k] })
}

/// Turn names into assignment targets.
pub fn vars_of_names(names: Vec<Vec<u8>>) -> (r: Vec<OpVariable>)
    ensures
        r.deep_view() == names_to_vars(names.deep_view()),
{
    let ghost orig = names.deep_view();
    let mut ns = names;
    let mut vars: Vec<OpVariable> = Vec::new();
    while ns.len() > 0
        invariant
            vars.deep_view().len() + ns.deep_view().len() == orig.len(),
            forall|k: int|
                0 <= k < vars.deep_view().len() ==> #[trigger] vars.deep_view()[k] == (VarV {
                    name: orig[k],
                }),
            forall|k: int|
                0 <= k < ns.deep_view().len() ==> #[trigger] ns.deep_view()[k] == orig[
                    vars.deep_view().len() + k
                ],
        decreases ns.len(),
    {
        let ghost vprev = vars.deep_view();
        let ghost nprev = ns.deep_view();
        let nm = ns.remove(0);
        vars.push(OpVariable { name: nm });
        proof {
            assert(nm@ == nprev[0]);
            assert(vars.deep_view() =~= vprev.push(VarV { name: nm@ }));
            assert forall|k: int| 0 <= k < ns.deep_view().len() implies #[trigger] ns.deep_view()[k]
                == orig[vars.deep_view().len() + k] by {
                assert(ns.deep_view()[k] == nprev[k + 1]);
            }
        }
    }
    proof {
        assert(vars.deep_view() =~= names_to_vars(orig));
    }
    vars
}

/// A code block's contents: operations until one fails to match; a fatal
/// failure aborts, a recoverable one ends the list.
#[verifier::opaque]
pub open spec fn spec_block_items(t: Seq<u8>, acc: Seq<OpV>) -> PRes<Seq<OpV>>
    decreases t.len(), 6int,
{
    match spec_read_operation(t) {
        PRes::NoParse(e) => if e.fatal {
            PRes::NoParse(e)
        } else {
            PRes::Parsed(t, acc)
        },
        PRes::Parsed(r, op) => {
            if r.len() < t.len() {
                spec_block_items(r, acc.push(op))
            } else {
                PRes::Parsed(r, acc.push(op))
            }
        },
    }
}

/// A code block: `{`, operations, `}`.
#[verifier::opaque]
pub open spec fn spec_read_code_block_raw(s: Seq<u8>) -> PRes<BlockV>
    decreases s.len(), 0int,
{
    let t = after_blank(s);
    if at_byte(t, '{' as u8) {
        let u = t.skip(1);
        if u.len() < s.len() {
            match spec_block_items(u, Seq::empty()) {
                PRes::Parsed(r, ops) => {
                    let t2 = after_blank(r);
                    if at_byte(t2, '}' as u8) {
                        PRes::Parsed(t2.skip(1), BlockV { operations: ops })
                    } else {
                        PRes::NoParse(fail_at(Ctx::Token, t2))
                    }
                },
                PRes::NoParse(e) => PRes::NoParse(e),
            }
        } else {
            PRes::NoParse(fail_at(Ctx::Token, u))
        }
    } else {
        PRes::NoParse(fail_at(Ctx::Token, t))
    }
}

/// A code block, as an operation.
#[verifier::opaque]
pub open spec fn spec_read_code_block(s: Seq<u8>) -> PRes<OpV>
    decreases s.len(), 1int,
{
    match spec_read_code_block_raw(s) {
        PRes::Parsed(r, b) => PRes::Parsed(r, OpV::Block(b)),
        PRes::NoParse(e) => PRes::NoParse(e),
    }
}

/// A tuple's items: operations separated by trivia-wrapped commas; an item
/// with no comma after it ends the list.
#[verifier::opaque]
pub open spec fn spec_tuple_items(t: Seq<u8>, acc: Seq<OpV>) -> PRes<Seq<OpV>>
    decreases t.len(), 6int,
{
    match spec_read_operation(t) {
        PRes::NoParse(e) => if e.fatal {
            PRes::NoParse(e)
        } else {
            PRes::Parsed(t, acc)
        },
        PRes::Parsed(r, op) => {
            let r2 = after_blank(r);
            if at_byte(r2, ',' as u8) {
                let r3 = after_blank(r2.skip(1));
                if r3.len() < t.len() {
                    spec_tuple_items(r3, acc.push(op))
                } else {
                    PRes::Parsed(r3, acc.push(op))
                }
            } else {
                PRes::Parsed(r, acc.push(op))
            }
        },
    }
}

/// A tuple: operations in parentheses; whatever the items leave unread
/// inside the region is discarded.
#[verifier::opaque]
pub open spec fn spec_read_tuple(s: Seq<u8>) -> PRes<OpV>
    decreases s.len(), 0int,
{
    let t = after_blank(s);
    match spec_paren_inner(t) {
        Some(p) => {
            if p.0.len() < s.len() {
                match spec_tuple_items(p.0, Seq::empty()) {
                    PRes::Parsed(_, ops) => PRes::Parsed(p.1, OpV::Tuple(ops)),
                    PRes::NoParse(e) => PRes::NoParse(e),
                }
            } else {
                PRes::NoParse(fail_at(Ctx::Token, p.0))
            }
        },
        None => PRes::NoParse(spec_paren_fail(t)),
    }
}

/// An assignment: optional `let`, one name or a parenthesized list, an
/// optional type list after a colon, `=`, then the assigned operation.
#[verifier::opaque]
pub open spec fn spec_read_assignment(s: Seq<u8>) -> PRes<OpV>
    decreases s.len(), 0int,
{
    let t = after_blank(s);
    let (is_new, t1) = if kw_at(t, Kw::Let) {
        (true, t.skip(3))
    } else {
        (false, t)
    };
    let t2 = after_blank(t1);
    let names_res = match spec_read_tuple_of_variable_names(t2) {
        PRes::Parsed(r, ns) => PRes::Parsed(r, ns),
        PRes::NoParse(e) => if e.fatal {
            PRes::NoParse(e)
        } else {
            match spec_read_variable_name(t2) {
                PRes::Parsed(r, nm) => PRes::Parsed(r, seq![nm]),
                PRes::NoParse(e2) => PRes::NoParse(e2),
            }
        },
    };
    match names_res {
        PRes::NoParse(e) => PRes::NoParse(e),
        PRes::Parsed(r1, names) => {
            let t3 = after_blank(r1);
            let types_res = if at_byte(t3, ':' as u8) {
                match spec_read_variable_type(t3.skip(1)) {
                    PRes::Parsed(r2, ty) => PRes::Parsed(
                        r2,
                        match ty {
                            TypeV::Tuple(ts) => ts,
                            _ => seq![ty],
                        },
                    ),
                    PRes::NoParse(e) => PRes::NoParse(e),
                }
            } else {
                PRes::Parsed(t3, Seq::empty())
            };
            match types_res {
                PRes::NoParse(e) => PRes::NoParse(e),
                PRes::Parsed(r2, tys) => {
                    let t4 = after_blank(r2);
                    if at_byte(t4, '=' as u8) {
                        let t5 = after_blank(after_blank(t4.skip(1)));
                        if t5.len() < s.len() {
                            match spec_read_operation(t5) {
                                PRes::Parsed(r3, v) => PRes::Parsed(
                                    r3,
                                    OpV::Assign(
                                        AssignV {
                                            is_new,
                                            to_assign: names_to_vars(names),
                                            type_assignments: tys,
                                            assignment: Box::new(v),
                                        },
                                    ),
                                ),
                                PRes::NoParse(e) => PRes::NoParse(e),
                            }
                        } else {
                            PRes::NoParse(fail_at(Ctx::Token, t5))
                        }
                    } else {
                        PRes::NoParse(fail_at(Ctx::Token, t4))
                    }
                },
            }
        },
    }
}

/// A unary operator: a symbol run, then a full operation as operand.
#[verifier::opaque]
pub open spec fn spec_read_urinary_operator(s: Seq<u8>) -> PRes<OpV>
    decreases s.len(), 0int,
{
    let t = after_blank(s);
    let n = scan_len(CharClass::OpSym, t);
    if n == 0 {
        PRes::NoParse(fail_at(Ctx::Token, t))
    } else {
        let sym = t.take(n as int);
        let t2 = after_blank(t.skip(n as int));
        if t2.len() < s.len() {
            match spec_read_operation(t2) {
                PRes::Parsed(r, a) => match spec_unary_operator_of(sym, a) {
                    Some(o) => PRes::Parsed(r, OpV::Operator(o)),
                    None => PRes::NoParse(fail_at(Ctx::UnknownOperator, r)),
                },
                PRes::NoParse(e) => PRes::NoParse(e),
            }
        } else {
            PRes::NoParse(fail_at(Ctx::Token, t2))
        }
    }
}

/// A binary operator: a restricted operand, a symbol run, and a second
/// restricted operand.
#[verifier::opaque]
pub open spec fn spec_read_binary_operator(s: Seq<u8>) -> PRes<OpV>
    decreases s.len(), 3int,
{
    // every operand alternative skips its own leading trivia
    match spec_read_sub_operation(s) {
        PRes::NoParse(e) => PRes::NoParse(e),
        PRes::Parsed(r1, a) => {
            let t2 = after_blank(r1);
            let n = scan_len(CharClass::OpSym, t2);
            if n == 0 {
                PRes::NoParse(fail_at(Ctx::Token, t2))
            } else {
                let sym = t2.take(n as int);
                let t3 = after_blank(t2.skip(n as int));
                if t3.len() < s.len() {
                    match spec_read_sub_operation(t3) {
                        PRes::Parsed(r2, b) => match spec_binary_operator_of(sym, a, b) {
                            Some(o) => PRes::Parsed(r2, OpV::Operator(o)),
                            None => PRes::NoParse(fail_at(Ctx::UnknownOperator, r2)),
                        },
                        PRes::NoParse(e) => PRes::NoParse(e),
                    }
                } else {
                    PRes::NoParse(fail_at(Ctx::Token, t3))
                }
            }
        },
    }
}

/// An `if`: condition, true block, and an optional `else` block; an absent
/// else yields an empty false block.
#[verifier::opaque]
pub open spec fn spec_read_if_statement(s: Seq<u8>) -> PRes<OpV>
    decreases s.len(), 0int,
{
    let t = after_blank(s);
    if kw_at(t, Kw::If) {
        let t1 = after_blank(t.skip(2));
        if t1.len() < s.len() {
            match spec_read_operation(t1) {
                PRes::Parsed(r1, cond) => {
                    let t2 = after_blank(r1);
                    if t2.len() < s.len() {
                        match spec_read_code_block_raw(t2) {
                            PRes::Parsed(r2, tb) => {
                                let t3 = after_blank(r2);
                                if kw_at(t3, Kw::Else) {
                                    let t4 = t3.skip(4);
                                    if t4.len() < s.len() {
                                        match spec_read_code_block_raw(t4) {
                                            PRes::Parsed(r3, fb) => PRes::Parsed(
                                                r3,
                                                OpV::If(
                                                    IfV {
                                                        condition: Box::new(cond),
                                                        true_block: tb,
                                                        false_block: fb,
                                                    },
                                                ),
                                            ),
                                            PRes::NoParse(e) => PRes::NoParse(e),
                                        }
                                    } else {
                                        PRes::NoParse(fail_at(Ctx::Token, t4))
                                    }
                                } else {
                                    PRes::Parsed(
                                        t3,
                                        OpV::If(
                                            IfV {
                                                condition: Box::new(cond),
                                                true_block: tb,
                                                false_block: BlockV { operations: Seq::empty() },
                                            },
                                        ),
                                    )
                                }
                            },
                            PRes::NoParse(e) => PRes::NoParse(e),
                        }
                    } else {
                        PRes::NoParse(fail_at(Ctx::Token, t2))
                    }
                },
                PRes::NoParse(e) => PRes::NoParse(e),
            }
        } else {
            PRes::NoParse(fail_at(Ctx::Token, t1))
        }
    } else {
        PRes::NoParse(fail_at(Ctx::Token, t))
    }
}

/// A bare `loop` over a block.
#[verifier::opaque]
pub open spec fn spec_read_basic_loop(s: Seq<u8>) -> PRes<OpV>
    decreases s.len(), 0int,
{
    let t = after_blank(s);
    if kw_at(t, Kw::Loop) {
        let t1 = after_blank(t.skip(4));
        if t1.len() < s.len() {
            match spec_read_code_block_raw(t1) {
                PRes::Parsed(r, b) => PRes::Parsed(r, OpV::Loop(b)),
                PRes::NoParse(e) => PRes::NoParse(e),
            }
        } else {
            PRes::NoParse(fail_at(Ctx::Token, t1))
        }
    } else {
        PRes::NoParse(fail_at(Ctx::Token, t))
    }
}

/// A `while` loop: condition, then a block.
#[verifier::opaque]
pub open spec fn spec_read_while_loop(s: Seq<u8>) -> PRes<OpV>
    decreases s.len(), 0int,
{
    let t = after_blank(s);
    if kw_at(t, Kw::While) {
        let t1 = after_blank(t.skip(5));
        if t1.len() < s.len() {
            match spec_read_operation(t1) {
                PRes::Parsed(r1, cond) => {
                    let t2 = after_blank(r1);
                    if t2.len() < s.len() {
                        match spec_read_code_block_raw(t2) {
                            PRes::Parsed(r2, b) => PRes::Parsed(
                                r2,
                                OpV::WhileLoop(WhileV { condition: Box::new(cond), block: b }),
                            ),
                            PRes::NoParse(e) => PRes::NoParse(e),
                        }
                    } else {
                        PRes::NoParse(fail_at(Ctx::Token, t2))
                    }
                },
                PRes::NoParse(e) => PRes::NoParse(e),
            }
        } else {
            PRes::NoParse(fail_at(Ctx::Token, t1))
        }
    } else {
        PRes::NoParse(fail_at(Ctx::Token, t))
    }
}

/// A `for` loop: bound variable, `in`, the iterated operation, a block.
#[verifier::opaque]
pub open spec fn spec_read_for_loop(s: Seq<u8>) -> PRes<OpV>
    decreases s.len(), 0int,
{
    let t = after_blank(s);
    if kw_at(t, Kw::For) {
        let t1 = after_blank(t.skip(3));
        match spec_read_variable_access_raw(t1) {
            PRes::Parsed(r1, var) => {
                let t2 = after_blank(r1);
                if kw_at(t2, Kw::In) {
                    let t3 = after_blank(t2.skip(2));
                    if t3.len() < s.len() {
                        match spec_read_operation(t3) {
                            PRes::Parsed(r2, iter) => {
                                let t4 = after_blank(r2);
                                if t4.len() < s.len() {
                                    match spec_read_code_block_raw(t4) {
                                        PRes::Parsed(r3, b) => PRes::Parsed(
                                            r3,
                                            OpV::ForLoop(
                                                ForV {
                                                    variable: var,
                                                    iterator: Box::new(iter),
                                                    block: b,
                                                },
                                            ),
                                        ),
                                        PRes::NoParse(e) => PRes::NoParse(e),
                                    }
                                } else {
                                    PRes::NoParse(fail_at(Ctx::Token, t4))
                                }
                            },
                            PRes::NoParse(e) => PRes::NoParse(e),
                        }
                    } else {
                        PRes::NoParse(fail_at(Ctx::Token, t3))
                    }
                } else {
                    PRes::NoParse(fail_at(Ctx::Token, t2))
                }
            },
            PRes::NoParse(e) => PRes::NoParse(e),
        }
    } else {
        PRes::NoParse(fail_at(Ctx::Token, t))
    }
}

/// A branch body: `=>`, then the branch's operation.
#[verifier::opaque]
pub open spec fn spec_read_branch_body(t: Seq<u8>, s: Seq<u8>) -> PRes<OpV>
    decreases s.len(), 0int,
{
    let bb = after_blank(t);
    if kw_at(bb, Kw::FatArrow) {
        let t5 = after_blank(bb.skip(2));
        if t5.len() < s.len() {
            spec_read_operation(t5)
        } else {
            PRes::NoParse(fail_at(Ctx::Token, t5))
        }
    } else {
        PRes::NoParse(fail_at(Ctx::Token, bb))
    }
}

/// A range pattern: two plain decimal bounds around `..`, then the body.
/// Bounds above the unsigned 64-bit container are fatal.
#[verifier::opaque]
pub open spec fn spec_read_range_branch(s: Seq<u8>) -> PRes<(MatchBranchV, OpV)>
    decreases s.len(), 1int,
{
    let t = after_blank(s);
    let n1 = scan_len(CharClass::Digit, t);
    if n1 == 0 {
        PRes::NoParse(fail_at(Ctx::Token, t))
    } else {
        let lo_text = t.take(n1 as int);
        let t2 = after_blank(t.skip(n1 as int));
        if kw_at(t2, Kw::DotDot) {
            let t3 = after_blank(t2.skip(2));
            let n2 = scan_len(CharClass::Digit, t3);
            if n2 == 0 {
                PRes::NoParse(fail_at(Ctx::Token, t3))
            } else {
                let hi_text = t3.take(n2 as int);
                let r2 = t3.skip(n2 as int);
                match (spec_int_value_of(lo_text), spec_int_value_of(hi_text)) {
                    (Some(lo), Some(hi)) => {
                        match spec_read_branch_body(after_blank(r2), s) {
                            PRes::Parsed(r3, op) => PRes::Parsed(
                                r3,
                                (MatchBranchV::Range(lo as i128, hi as i128), op),
                            ),
                            PRes::NoParse(e) => PRes::NoParse(e),
                        }
                    },
                    _ => PRes::NoParse(
                        PErr { fatal: true, ctx: Ctx::IntegerValue, rem: r2.len() as usize },
                    ),
                }
            }
        } else {
            PRes::NoParse(fail_at(Ctx::Token, t2))
        }
    }
}

/// The value of a plain decimal digit run, when it fits the unsigned
/// 64-bit container.
pub open spec fn spec_int_value_of(text: Seq<u8>) -> Option<nat> {
    match crate::literal::spec_int_value(text, 10) {
        Some(p) => if !p.0 && p.1 <= u64::MAX {
            Some(p.1)
        } else {
            None
        },
        None => None,
    }
}

/// A constant pattern, then the body.
#[verifier::opaque]
pub open spec fn spec_read_constant_branch(s: Seq<u8>) -> PRes<(MatchBranchV, OpV)>
    decreases s.len(), 1int,
{
    let t = after_blank(s);
    match spec_read_constant_raw(t) {
        PRes::Parsed(r, c) => {
            match spec_read_branch_body(after_blank(r), s) {
                PRes::Parsed(r2, op) => PRes::Parsed(r2, (MatchBranchV::Constant(c), op)),
                PRes::NoParse(e) => PRes::NoParse(e),
            }
        },
        PRes::NoParse(e) => PRes::NoParse(e),
    }
}

/// An enum-variant pattern `Enum::Variant(names)`, then the body.
#[verifier::opaque]
pub open spec fn spec_read_enum_branch(s: Seq<u8>) -> PRes<(MatchBranchV, OpV)>
    decreases s.len(), 1int,
{
    let t = after_blank(s);
    match spec_read_variable_name(t) {
        PRes::NoParse(e) => PRes::NoParse(e),
        PRes::Parsed(r1, enm) => {
            let t2 = after_blank(r1);
            if kw_at(t2, Kw::PathSep) {
                let t3 = after_blank(t2.skip(2));
                match spec_read_variable_name(t3) {
                    PRes::NoParse(e) => PRes::NoParse(e),
                    PRes::Parsed(r2, vart) => {
                        let t4 = after_blank(r2);
                        let (vars, t5) = match spec_paren_inner(t4) {
                            Some(p) => (spec_bare_name_items(p.0, Seq::empty()), p.1),
                            None => (Seq::empty(), t4),
                        };
                        match spec_read_branch_body(t5, s) {
                            PRes::Parsed(r3, op) => PRes::Parsed(
                                r3,
                                (
                                    MatchBranchV::Enum(
                                        MatchEnumBranchV {
                                            nl_enum: enm,
                                            variant: vart,
                                            variables: vars,
                                        },
                                    ),
                                    op,
                                ),
                            ),
                            PRes::NoParse(e) => PRes::NoParse(e),
                        }
                    },
                }
            } else {
                PRes::NoParse(fail_at(Ctx::Token, t2))
            }
        },
    }
}

/// A match branch: a range, a constant, or an enum pattern, in that order.
#[verifier::opaque]
pub open spec fn spec_read_branch(s: Seq<u8>) -> PRes<(MatchBranchV, OpV)>
    decreases s.len(), 2int,
{
    match spec_read_range_branch(s) {
        PRes::Parsed(r, b) => PRes::Parsed(r, b),
        PRes::NoParse(e1) => if e1.fatal {
            PRes::NoParse(e1)
        } else {
            match spec_read_constant_branch(s) {
                PRes::Parsed(r, b) => PRes::Parsed(r, b),
                PRes::NoParse(e2) => if e2.fatal {
                    PRes::NoParse(e2)
                } else {
                    spec_read_enum_branch(s)
                },
            }
        },
    }
}

/// The branches of a match: branches separated by bare commas; a branch
/// with no comma after it ends the list.
#[verifier::opaque]
pub open spec fn spec_match_branches(t: Seq<u8>, acc: Seq<(MatchBranchV, OpV)>) -> PRes<
    Seq<(MatchBranchV, OpV)>,
>
    decreases t.len(), 6int,
{
    match spec_read_branch(t) {
        PRes::NoParse(e) => if e.fatal {
            PRes::NoParse(e)
        } else {
            PRes::Parsed(t, acc)
        },
        PRes::Parsed(r, item) => {
            if at_byte(r, ',' as u8) {
                let r2 = r.skip(1);
                if r2.len() < t.len() {
                    spec_match_branches(r2, acc.push(item))
                } else {
                    PRes::Parsed(r2, acc.push(item))
                }
            } else {
                PRes::Parsed(r, acc.push(item))
            }
        },
    }
}

/// A `match`: the matched operation, then braced branches.
#[verifier::opaque]
pub open spec fn spec_read_match(s: Seq<u8>) -> PRes<OpV>
    decreases s.len(), 0int,
{
    let t = after_blank(s);
    if kw_at(t, Kw::Match) {
        let t1 = after_blank(t.skip(5));
        if t1.len() < s.len() {
            match spec_read_operation(t1) {
                PRes::Parsed(r1, inp) => {
                    let t2 = after_blank(r1);
                    if at_byte(t2, '{' as u8) {
                        let t3 = after_blank(t2.skip(1));
                        if t3.len() < s.len() {
                            match spec_match_branches(t3, Seq::empty()) {
                                PRes::Parsed(r2, bs) => {
                                    let t4 = after_blank(r2);
                                    if at_byte(t4, '}' as u8) {
                                        PRes::Parsed(
                                            t4.skip(1),
                                            OpV::Match(MatchV { input: Box::new(inp), branches: bs }),
                                        )
                                    } else {
                                        PRes::NoParse(fail_at(Ctx::Token, t4))
                                    }
                                },
                                PRes::NoParse(e) => PRes::NoParse(e),
                            }
                        } else {
                            PRes::NoParse(fail_at(Ctx::Token, t3))
                        }
                    } else {
                        PRes::NoParse(fail_at(Ctx::Token, t2))
                    }
                },
                PRes::NoParse(e) => PRes::NoParse(e),
            }
        } else {
            PRes::NoParse(fail_at(Ctx::Token, t1))
        }
    } else {
        PRes::NoParse(fail_at(Ctx::Token, t))
    }
}

/// The restricted operand grammar: block, tuple, call, assignment,
/// constant, unary operator, variable access — no control flow and no
/// binary operators.
#[verifier::opaque]
pub open spec fn spec_read_sub_operation(s: Seq<u8>) -> PRes<OpV>
    decreases s.len(), 2int,
{
    match spec_read_code_block(s) {
        PRes::Parsed(r, v) => PRes::Parsed(r, v),
        PRes::NoParse(e) => if e.fatal {
            PRes::NoParse(e)
        } else {
            match spec_read_tuple(s) {
                PRes::Parsed(r, v) => PRes::Parsed(r, v),
                PRes::NoParse(e) => if e.fatal {
                    PRes::NoParse(e)
                } else {
                    match spec_read_function_call(s) {
                        PRes::Parsed(r, v) => PRes::Parsed(r, v),
                        PRes::NoParse(e) => if e.fatal {
                            PRes::NoParse(e)
                        } else {
                            match spec_read_assignment(s) {
                                PRes::Parsed(r, v) => PRes::Parsed(r, v),
                                PRes::NoParse(e) => if e.fatal {
                                    PRes::NoParse(e)
                                } else {
                                    match spec_read_constant(s) {
                                        PRes::Parsed(r, v) => PRes::Parsed(r, v),
                                        PRes::NoParse(e) => if e.fatal {
                                            PRes::NoParse(e)
                                        } else {
                                            match spec_read_urinary_operator(s) {
                                                PRes::Parsed(r, v) => PRes::Parsed(r, v),
                                                PRes::NoParse(e) => if e.fatal {
                                                    PRes::NoParse(e)
                                                } else {
                                                    spec_read_variable_access(s)
                                                },
                                            }
                                        },
                                    }
                                },
                            }
                        },
                    }
                },
            }
        },
    }
}

/// The full operation grammar: an ordered choice over every operation form;
/// the first alternative that matches wins.
#[verifier::opaque]
pub open spec fn spec_read_operation(s: Seq<u8>) -> PRes<OpV>
    decreases s.len(), 5int,
{
    match spec_read_code_block(s) {
        PRes::Parsed(r, v) => PRes::Parsed(r, v),
        PRes::NoParse(e) => if e.fatal {
            PRes::NoParse(e)
        } else {
            match spec_read_if_statement(s) {
                PRes::Parsed(r, v) => PRes::Parsed(r, v),
                PRes::NoParse(e) => if e.fatal {
                    PRes::NoParse(e)
                } else {
                    match spec_read_match(s) {
                        PRes::Parsed(r, v) => PRes::Parsed(r, v),
                        PRes::NoParse(e) => if e.fatal {
                            PRes::NoParse(e)
                        } else {
                            match spec_read_break_keyword(s) {
                                PRes::Parsed(r, v) => PRes::Parsed(r, v),
                                PRes::NoParse(e) => if e.fatal {
                                    PRes::NoParse(e)
                                } else {
                                    match spec_read_basic_loop(s) {
                                        PRes::Parsed(r, v) => PRes::Parsed(r, v),
                                        PRes::NoParse(e) => if e.fatal {
                                            PRes::NoParse(e)
                                        } else {
                                            match spec_read_while_loop(s) {
                                                PRes::Parsed(r, v) => PRes::Parsed(r, v),
                                                PRes::NoParse(e) => if e.fatal {
                                                    PRes::NoParse(e)
                                                } else {
                                                    match spec_read_for_loop(s) {
                                                        PRes::Parsed(r, v) => PRes::Parsed(r, v),
                                                        PRes::NoParse(e) => if e.fatal {
                                                            PRes::NoParse(e)
                                                        } else {
                                                            match spec_read_tuple(s) {
                                                                PRes::Parsed(r, v) => PRes::Parsed(r, v),
                                                                PRes::NoParse(e) => if e.fatal {
                                                                    PRes::NoParse(e)
                                                                } else {
                                                                    spec_read_operation_tail(s)
                                                                },
                                                            }
                                                        },
                                                    }
                                                },
                                            }
                                        },
                                    }
                                },
                            }
                        },
                    }
                },
            }
        },
    }
}

/// The tail of the operation choice: call, assignment, binary operator,
/// constant, unary operator, variable access.
#[verifier::opaque]
pub open spec fn spec_read_operation_tail(s: Seq<u8>) -> PRes<OpV>
    decreases s.len(), 4int,
{
    match spec_read_function_call(s) {
        PRes::Parsed(r, v) => PRes::Parsed(r, v),
        PRes::NoParse(e) => if e.fatal {
            PRes::NoParse(e)
        } else {
            match spec_read_assignment(s) {
                PRes::Parsed(r, v) => PRes::Parsed(r, v),
                PRes::NoParse(e) => if e.fatal {
                    PRes::NoParse(e)
                } else {
                    match spec_read_binary_operator(s) {
                        PRes::Parsed(r, v) => PRes::Parsed(r, v),
                        PRes::NoParse(e) => if e.fatal {
                            PRes::NoParse(e)
                        } else {
                            match spec_read_constant(s) {
                                PRes::Parsed(r, v) => PRes::Parsed(r, v),
                                PRes::NoParse(e) => if e.fatal {
                                    PRes::NoParse(e)
                                } else {
                                    match spec_read_urinary_operator(s) {
                                        PRes::Parsed(r, v) => PRes::Parsed(r, v),
                                        PRes::NoParse(e) => if e.fatal {
                                            PRes::NoParse(e)
                                        } else {
                                            spec_read_variable_access(s)
                                        },
                                    }
                                },
                            }
                        },
                    }
                },
            }
        },
    }
}

// ---------------------------------------------------------------------------
// Executable readers for the operation grammar
// ---------------------------------------------------------------------------

/// Read a code block's operations until one fails to match.
fn block_items<'a>(t0: &'a [u8]) -> (r: Result<(&'a [u8], Vec<NLOperation>), PErr>)
    ensures
        match r {
            Ok(p) => spec_block_items(t0@, Seq::empty()) == PRes::<Seq<OpV>>::Parsed(
                p.0@,
                op_seq_view(p.1@),
            ),
            Err(e) => spec_block_items(t0@, Seq::empty()) == PRes::<Seq<OpV>>::NoParse(e),
        },
    decreases t0@.len(), 6int,
{
    reveal_with_fuel(spec_block_items, 1);
    reveal_with_fuel(spec_read_operation, 1);
    let mut cur = t0;
    let mut ops: Vec<NLOperation> = Vec::new();
    proof {
        assert(op_seq_view(ops@) =~= Seq::<OpV>::empty());
    }
    loop
        invariant
            cur@.len() <= t0@.len(),
            spec_block_items(t0@, Seq::empty()) == spec_block_items(cur@, op_seq_view(ops@)),
        decreases cur@.len(),
    {
        reveal_with_fuel(spec_block_items, 1);
        reveal_with_fuel(spec_tuple_items, 1);
        reveal_with_fuel(spec_read_operation, 1);
        match read_operation(cur) {
            Err(e) => {
                if e.fatal {
                    return Err(e);
                } else {
                    return Ok((cur, ops));
                }
            },
            Ok((r, op)) => {
                let ghost prev = ops@;
                let ghost opv = op.deep_view();
                let shrunk = r.len() < cur.len();
                ops.push(op);
                proof {
                    lemma_op_seq_view_push(prev, ops@[prev.len() as int]);
                    assert(ops@.drop_last() =~= prev);
                    assert(op_seq_view(ops@) == op_seq_view(prev).push(opv));
                }
                if shrunk {
                    cur = r;
                } else {
                    return Ok((r, ops));
                }
            },
        }
    }
}

/// Read a code block: `{`, operations, `}`.
pub fn read_code_block_raw<'a>(i: &'a [u8]) -> (r: Result<(&'a [u8], NLBlock), PErr>)
    ensures
        out_matches(r, spec_read_code_block_raw(i@)),
    decreases i@.len(), 0int,
{
    reveal_with_fuel(spec_read_code_block_raw, 1);
    reveal_with_fuel(spec_block_items, 1);

    let t = blank(i);
    match eat_byte(t, '{' as u8) {
        None => Err(PErr { fatal: false, ctx: Ctx::Token, rem: t.len() }),
        Some(u) => {
            if u.len() < i.len() {
                match block_items(u) {
                    Ok((r, ops)) => {
                        let t2 = blank(r);
                        match eat_byte(t2, '}' as u8) {
                            Some(rest) => Ok((rest, NLBlock { operations: ops })),
                            None => Err(PErr { fatal: false, ctx: Ctx::Token, rem: t2.len() }),
                        }
                    },
                    Err(e) => Err(e),
                }
            } else {
                Err(PErr { fatal: false, ctx: Ctx::Token, rem: u.len() })
            }
        },
    }
}

/// Read a code block, as an operation.
pub fn read_code_block<'a>(i: &'a [u8]) -> (r: Result<(&'a [u8], NLOperation), PErr>)
    ensures
        out_matches(r, spec_read_code_block(i@)),
    decreases i@.len(), 1int,
{
    reveal_with_fuel(spec_read_code_block, 1);
    reveal_with_fuel(spec_read_code_block_raw, 1);

    match read_code_block_raw(i) {
        Ok((r, b)) => Ok((r, NLOperation::Block(b))),
        Err(e) => Err(e),
    }
}

/// Read a tuple's comma-separated operations.
fn tuple_items<'a>(t0: &'a [u8]) -> (r: Result<(&'a [u8], Vec<NLOperation>), PErr>)
    ensures
        match r {
            Ok(p) => spec_tuple_items(t0@, Seq::empty()) == PRes::<Seq<OpV>>::Parsed(
                p.0@,
                op_seq_view(p.1@),
            ),
            Err(e) => spec_tuple_items(t0@, Seq::empty()) == PRes::<Seq<OpV>>::NoParse(e),
        },
    decreases t0@.len(), 6int,
{
    reveal_with_fuel(spec_tuple_items, 1);
    reveal_with_fuel(spec_read_operation, 1);
    let mut cur = t0;
    let mut ops: Vec<NLOperation> = Vec::new();
    proof {
        assert(op_seq_view(ops@) =~= Seq::<OpV>::empty());
    }
    loop
        invariant
            cur@.len() <= t0@.len(),
            spec_tuple_items(t0@, Seq::empty()) == spec_tuple_items(cur@, op_seq_view(ops@)),
        decreases cur@.len(),
    {
        reveal_with_fuel(spec_block_items, 1);
        reveal_with_fuel(spec_tuple_items, 1);
        reveal_with_fuel(spec_read_operation, 1);
        match read_operation(cur) {
            Err(e) => {
                if e.fatal {
                    return Err(e);
                } else {
                    return Ok((cur, ops));
                }
            },
            Ok((r, op)) => {
                let ghost prev = ops@;
                let ghost opv = op.deep_view();
                ops.push(op);
                proof {
                    lemma_op_seq_view_push(prev, ops@[prev.len() as int]);
                    assert(ops@.drop_last() =~= prev);
                    assert(op_seq_view(ops@) == op_seq_view(prev).push(opv));
                }
                let r2 = blank(r);
                match eat_byte(r2, ',' as u8) {
                    Some(r2b) => {
                        let r3 = blank(r2b);
                        if r3.len() < cur.len() {
                            cur = r3;
                        } else {
                            return Ok((r3, ops));
                        }
                    },
                    None => {
                        return Ok((r, ops));
                    },
                }
            },
        }
    }
}

/// Read a tuple of operations.
pub fn read_tuple<'a>(i: &'a [u8]) -> (r: Result<(&'a [u8], NLOperation), PErr>)
    ensures
        out_matches(r, spec_read_tuple(i@)),
    decreases i@.len(), 0int,
{
    reveal_with_fuel(spec_read_tuple, 1);
    reveal_with_fuel(spec_tuple_items, 1);

    let t = blank(i);
    match paren_inner(t) {
        Some((inner, rest)) => {
            if inner.len() < i.len() {
                match tuple_items(inner) {
                    Ok((_, ops)) => Ok((rest, NLOperation::Tuple(ops))),
                    Err(e) => Err(e),
                }
            } else {
                Err(PErr { fatal: false, ctx: Ctx::Token, rem: inner.len() })
            }
        },
        None => Err(paren_fail(t)),
    }
}

/// Read an assignment.
#[verifier::rlimit(50)]
#[verifier::spinoff_prover]
pub fn read_assignment<'a>(i: &'a [u8]) -> (r: Result<(&'a [u8], NLOperation), PErr>)
    ensures
        out_matches(r, spec_read_assignment(i@)),
    decreases i@.len(), 0int,
{
    reveal_with_fuel(spec_read_assignment, 1);
    reveal_with_fuel(spec_read_tuple_of_variable_names, 1);
    reveal_with_fuel(spec_read_operation, 1);

    let t = blank(i);
    let (is_new, t1) = match tag(t, Kw::Let) {
        Some(rest) => (true, rest),
        None => (false, t),
    };
    let t2 = blank(t1);
    let names = match read_tuple_of_variable_names(t2) {
        Ok((r, ns)) => (r, ns),
        Err(e) => {
            if e.fatal {
                return Err(e);
            } else {
                match read_variable_name(t2) {
                    Ok((r, nm)) => {
                        let mut one: Vec<Vec<u8>> = Vec::new();
                        one.push(nm);
                        proof {
                            assert(one.deep_view() =~= seq![nm@]);
                        }
                        (r, one)
                    },
                    Err(e2) => {
                        return Err(e2);
                    },
                }
            }
        },
    };
    let (r1, names) = names;
    let t3 = blank(r1);
    let types = match eat_byte(t3, ':' as u8) {
        Some(after) => {
            match read_variable_type(after) {
                Ok((r2, ty)) => {
                    match ty {
                        NLType::Tuple(ts) => {
                            proof {
                                crate::views::lemma_type_seq_view_index(ts@);
                                assert(ts.deep_view() =~= type_seq_view(ts@));
                            }
                            (r2, ts)
                        },
                        other => {
                            let mut one: Vec<NLType> = Vec::new();
                            let ghost ov = other.deep_view();
                            one.push(other);
                            proof {
                                assert(one.deep_view() =~= seq![ov]);
                            }
                            (r2, one)
                        },
                    }
                },
                Err(e) => {
                    return Err(e);
                },
            }
        },
        None => (t3, Vec::new()),
    };
    let (r2, tys) = types;
    proof {
        if tys@.len() == 0 {
            assert(tys.deep_view() =~= Seq::<TypeV>::empty());
        }
        crate::views::lemma_type_seq_view_index(tys@);
        assert(type_seq_view(tys@) =~= tys.deep_view());
    }
    let t4 = blank(r2);
    match eat_byte(t4, '=' as u8) {
        Some(after_eq) => {
            let t5 = blank(blank(after_eq));
            if t5.len() < i.len() {
                match read_operation(t5) {
                    Ok((r3, v)) => {
                        let vars = vars_of_names(names);
                        Ok(
                            (
                                r3,
                                NLOperation::Assign(
                                    OpAssignment {
                                        is_new,
                                        to_assign: vars,
                                        type_assignments: tys,
                                        assignment: Box::new(v),
                                    },
                                ),
                            ),
                        )
                    },
                    Err(e) => Err(e),
                }
            } else {
                Err(PErr { fatal: false, ctx: Ctx::Token, rem: t5.len() })
            }
        },
        None => Err(PErr { fatal: false, ctx: Ctx::Token, rem: t4.len() }),
    }
}

/// Read a unary operator application.
pub fn read_urinary_operator<'a>(i: &'a [u8]) -> (r: Result<(&'a [u8], NLOperation), PErr>)
    ensures
        out_matches(r, spec_read_urinary_operator(i@)),
    decreases i@.len(), 0int,
{
    reveal_with_fuel(spec_read_urinary_operator, 1);
    reveal_with_fuel(spec_read_operation, 1);

    let t = blank(i);
    let n = scan(t, CharClass::OpSym);
    if n == 0 {
        Err(PErr { fatal: false, ctx: Ctx::Token, rem: t.len() })
    } else {
        let sym = vstd::slice::slice_subrange(t, 0, n);
        let t2 = blank(vstd::slice::slice_subrange(t, n, t.len()));
        if t2.len() < i.len() {
            match read_operation(t2) {
                Ok((r, a)) => {
                    let rlen = r.len();
                    match unary_operator_of(sym, a) {
                        Some(x) => Ok((r, x)),
                        None => Err(PErr { fatal: false, ctx: Ctx::UnknownOperator, rem: rlen }),
                    }
                },
                Err(e) => Err(e),
            }
        } else {
            Err(PErr { fatal: false, ctx: Ctx::Token, rem: t2.len() })
        }
    }
}

/// Read a binary operator application.
pub fn read_binary_operator<'a>(i: &'a [u8]) -> (r: Result<(&'a [u8], NLOperation), PErr>)
    ensures
        out_matches(r, spec_read_binary_operator(i@)),
    decreases i@.len(), 3int,
{
    reveal_with_fuel(spec_read_binary_operator, 1);
    reveal_with_fuel(spec_read_sub_operation, 1);

    match read_sub_operation(i) {
        Err(e) => Err(e),
        Ok((r1, a)) => {
            let t2 = blank(r1);
            let n = scan(t2, CharClass::OpSym);
            if n == 0 {
                Err(PErr { fatal: false, ctx: Ctx::Token, rem: t2.len() })
            } else {
                let sym = vstd::slice::slice_subrange(t2, 0, n);
                let t3 = blank(vstd::slice::slice_subrange(t2, n, t2.len()));
                if t3.len() < i.len() {
                    match read_sub_operation(t3) {
                        Ok((r2, b)) => {
                            let rlen = r2.len();
                            match binary_operator_of(sym, a, b) {
                                Some(x) => Ok((r2, x)),
                                None => Err(
                                    PErr { fatal: false, ctx: Ctx::UnknownOperator, rem: rlen },
                                ),
                            }
                        },
                        Err(e) => Err(e),
                    }
                } else {
                    Err(PErr { fatal: false, ctx: Ctx::Token, rem: t3.len() })
                }
            }
        },
    }
}

/// Read an `if` statement.
#[verifier::rlimit(50)]
#[verifier::spinoff_prover]
pub fn read_if_statement<'a>(i: &'a [u8]) -> (r: Result<(&'a [u8], NLOperation), PErr>)
    ensures
        out_matches(r, spec_read_if_statement(i@)),
    decreases i@.len(), 0int,
{
    reveal_with_fuel(spec_read_if_statement, 1);
    reveal_with_fuel(spec_read_operation, 1);
    reveal_with_fuel(spec_read_code_block_raw, 1);

    let t = blank(i);
    match tag(t, Kw::If) {
        None => Err(PErr { fatal: false, ctx: Ctx::Token, rem: t.len() }),
        Some(after_if) => {
            let t1 = blank(after_if);
            if t1.len() < i.len() {
                match read_operation(t1) {
                    Ok((r1, cond)) => {
                        let t2 = blank(r1);
                        if t2.len() < i.len() {
                            match read_code_block_raw(t2) {
                                Ok((r2, tb)) => {
                                    let ghost condv = cond.deep_view();
                                    let ghost tbv = tb.deep_view();
                                    let t3 = blank(r2);
                                    match tag(t3, Kw::Else) {
                                        Some(t4) => {
                                            if t4.len() < i.len() {
                                                match read_code_block_raw(t4) {
                                                    Ok((r3, fb)) => {
                                                        let ghost fbv = fb.deep_view();
                                                        let st = IfStatement {
                                                            condition: Box::new(cond),
                                                            true_block: tb,
                                                            false_block: fb,
                                                        };
                                                        proof {
                                                            assert(st.deep_view() == (IfV {
                                                                condition: Box::new(condv),
                                                                true_block: tbv,
                                                                false_block: fbv,
                                                            }));
                                                        }
                                                        let out = NLOperation::If(st);
                                                        proof {
                                                            assert(out.deep_view() == OpV::If(
                                                                IfV {
                                                                    condition: Box::new(condv),
                                                                    true_block: tbv,
                                                                    false_block: fbv,
                                                                },
                                                            ));
                                                        }
                                                        Ok((r3, out))
                                                    },
                                                    Err(e) => Err(e),
                                                }
                                            } else {
                                                Err(
                                                    PErr {
                                                        fatal: false,
                                                        ctx: Ctx::Token,
                                                        rem: t4.len(),
                                                    },
                                                )
                                            }
                                        },
                                        None => {
                                            let empty_ops: Vec<NLOperation> = Vec::new();
                                            proof {
                                                assert(empty_ops@ =~= Seq::<NLOperation>::empty());
                                                assert(op_seq_view(empty_ops@) =~= Seq::<
                                                    OpV,
                                                >::empty());
                                            }
                                            let fb = NLBlock { operations: empty_ops };
                                            proof {
                                                assert(fb.deep_view() == (BlockV {
                                                    operations: Seq::<OpV>::empty(),
                                                }));
                                            }
                                            let st = IfStatement {
                                                condition: Box::new(cond),
                                                true_block: tb,
                                                false_block: fb,
                                            };
                                            proof {
                                                assert(st.deep_view() == (IfV {
                                                    condition: Box::new(condv),
                                                    true_block: tbv,
                                                    false_block: BlockV {
                                                        operations: Seq::<OpV>::empty(),
                                                    },
                                                }));
                                            }
                                            let out = NLOperation::If(st);
                                            proof {
                                                assert(out.deep_view() == OpV::If(
                                                    IfV {
                                                        condition: Box::new(condv),
                                                        true_block: tbv,
                                                        false_block: BlockV {
                                                            operations: Seq::<OpV>::empty(),
                                                        },
                                                    },
                                                ));
                                            }
                                            Ok((t3, out))
                                        },
                                    }
                                },
                                Err(e) => Err(e),
                            }
                        } else {
                            Err(PErr { fatal: false, ctx: Ctx::Token, rem: t2.len() })
                        }
                    },
                    Err(e) => Err(e),
                }
            } else {
                Err(PErr { fatal: false, ctx: Ctx::Token, rem: t1.len() })
            }
        },
    }
}

/// Read a bare `loop`.
pub fn read_basic_loop<'a>(i: &'a [u8]) -> (r: Result<(&'a [u8], NLOperation), PErr>)
    ensures
        out_matches(r, spec_read_basic_loop(i@)),
    decreases i@.len(), 0int,
{
    reveal_with_fuel(spec_read_basic_loop, 1);
    reveal_with_fuel(spec_read_code_block_raw, 1);

    let t = blank(i);
    match tag(t, Kw::Loop) {
        None => Err(PErr { fatal: false, ctx: Ctx::Token, rem: t.len() }),
        Some(after) => {
            let t1 = blank(after);
            if t1.len() < i.len() {
                match read_code_block_raw(t1) {
                    Ok((r, b)) => Ok((r, NLOperation::Loop(b))),
                    Err(e) => Err(e),
                }
            } else {
                Err(PErr { fatal: false, ctx: Ctx::Token, rem: t1.len() })
            }
        },
    }
}

/// Read a `while` loop.
#[verifier::rlimit(50)]
#[verifier::spinoff_prover]
pub fn read_while_loop<'a>(i: &'a [u8]) -> (r: Result<(&'a [u8], NLOperation), PErr>)
    ensures
        out_matches(r, spec_read_while_loop(i@)),
    decreases i@.len(), 0int,
{
    reveal_with_fuel(spec_read_while_loop, 1);
    reveal_with_fuel(spec_read_operation, 1);
    reveal_with_fuel(spec_read_code_block_raw, 1);

    let t = blank(i);
    match tag(t, Kw::While) {
        None => Err(PErr { fatal: false, ctx: Ctx::Token, rem: t.len() }),
        Some(after) => {
            let t1 = blank(after);
            if t1.len() < i.len() {
                match read_operation(t1) {
                    Ok((r1, cond)) => {
                        let t2 = blank(r1);
                        if t2.len() < i.len() {
                            match read_code_block_raw(t2) {
                                Ok((r2, b)) => Ok(
                                    (
                                        r2,
                                        NLOperation::WhileLoop(
                                            WhileLoop { condition: Box::new(cond), block: b },
                                        ),
                                    ),
                                ),
                                Err(e) => Err(e),
                            }
                        } else {
                            Err(PErr { fatal: false, ctx: Ctx::Token, rem: t2.len() })
                        }
                    },
                    Err(e) => Err(e),
                }
            } else {
                Err(PErr { fatal: false, ctx: Ctx::Token, rem: t1.len() })
            }
        },
    }
}

/// Read a `for` loop.
#[verifier::rlimit(50)]
#[verifier::spinoff_prover]
pub fn read_for_loop<'a>(i: &'a [u8]) -> (r: Result<(&'a [u8], NLOperation), PErr>)
    ensures
        out_matches(r, spec_read_for_loop(i@)),
    decreases i@.len(), 0int,
{
    reveal_with_fuel(spec_read_for_loop, 1);
    reveal_with_fuel(spec_read_operation, 1);
    reveal_with_fuel(spec_read_code_block_raw, 1);

    let t = blank(i);
    match tag(t, Kw::For) {
        None => Err(PErr { fatal: false, ctx: Ctx::Token, rem: t.len() }),
        Some(after) => {
            let t1 = blank(after);
            match read_variable_access_raw(t1) {
                Err(e) => Err(e),
                Ok((r1, var)) => {
                    let t2 = blank(r1);
                    match tag(t2, Kw::In) {
                        None => Err(PErr { fatal: false, ctx: Ctx::Token, rem: t2.len() }),
                        Some(after_in) => {
                            let t3 = blank(after_in);
                            if t3.len() < i.len() {
                                match read_operation(t3) {
                                    Ok((r2, iter)) => {
                                        let t4 = blank(r2);
                                        if t4.len() < i.len() {
                                            match read_code_block_raw(t4) {
                                                Ok((r3, b)) => Ok(
                                                    (
                                                        r3,
                                                        NLOperation::ForLoop(
                                                            ForLoop {
                                                                variable: var,
                                                                iterator: Box::new(iter),
                                                                block: b,
                                                            },
                                                        ),
                                                    ),
                                                ),
                                                Err(e) => Err(e),
                                            }
                                        } else {
                                            Err(
                                                PErr {
                                                    fatal: false,
                                                    ctx: Ctx::Token,
                                                    rem: t4.len(),
                                                },
                                            )
                                        }
                                    },
                                    Err(e) => Err(e),
                                }
                            } else {
                                Err(PErr { fatal: false, ctx: Ctx::Token, rem: t3.len() })
                            }
                        },
                    }
                },
            }
        },
    }
}

/// Read a branch body: `=>`, then the operation; the guard compares against
/// the branch's own start.
#[verifier::rlimit(50)]
#[verifier::spinoff_prover]
fn read_branch_body<'a>(t: &'a [u8], s: &[u8]) -> (r: Result<(&'a [u8], NLOperation), PErr>)
    ensures
        out_matches(r, spec_read_branch_body(t@, s@)),
    decreases s@.len(), 0int,
{
    reveal_with_fuel(spec_read_branch_body, 1);
    reveal_with_fuel(spec_read_operation, 1);

    let bb = blank(t);
    match tag(bb, Kw::FatArrow) {
        Some(after) => {
            let t5 = blank(after);
            if t5.len() < s.len() {
                read_operation(t5)
            } else {
                Err(PErr { fatal: false, ctx: Ctx::Token, rem: t5.len() })
            }
        },
        None => Err(PErr { fatal: false, ctx: Ctx::Token, rem: bb.len() }),
    }
}

/// Read a range pattern branch.
#[verifier::rlimit(100)]
#[verifier::spinoff_prover]
fn read_range_branch<'a>(i: &'a [u8]) -> (r: Result<(&'a [u8], (MatchBranch, NLOperation)), PErr>)
    ensures
        out_matches(r, spec_read_range_branch(i@)),
    decreases i@.len(), 1int,
{
    reveal_with_fuel(spec_read_range_branch, 1);
    reveal_with_fuel(spec_read_branch_body, 1);

    let t = blank(i);
    let n1 = scan(t, CharClass::Digit);
    if n1 == 0 {
        return Err(PErr { fatal: false, ctx: Ctx::Token, rem: t.len() });
    }
    let lo_text = vstd::slice::slice_subrange(t, 0, n1);
    let t2 = blank(vstd::slice::slice_subrange(t, n1, t.len()));
    match tag(t2, Kw::DotDot) {
        None => Err(PErr { fatal: false, ctx: Ctx::Token, rem: t2.len() }),
        Some(after_dots) => {
            let t3 = blank(after_dots);
            let n2 = scan(t3, CharClass::Digit);
            if n2 == 0 {
                return Err(PErr { fatal: false, ctx: Ctx::Token, rem: t3.len() });
            }
            let hi_text = vstd::slice::slice_subrange(t3, 0, n2);
            let r2 = vstd::slice::slice_subrange(t3, n2, t3.len());
            proof {
                crate::literal::lemma_scan_prefix_in_class(CharClass::Digit, t@);
                crate::literal::lemma_scan_prefix_in_class(CharClass::Digit, t3@);
                assert forall|k: int| 0 <= k < lo_text@.len() implies crate::literal::digit_val(
                    lo_text@[k],
                ) < 10 by {
                    assert(lo_text@[k] == t@[k]);
                    assert(crate::lex::in_class(CharClass::Digit, t@[k]));
                }
                assert forall|k: int| 0 <= k < hi_text@.len() implies crate::literal::digit_val(
                    hi_text@[k],
                ) < 10 by {
                    assert(hi_text@[k] == t3@[k]);
                    assert(crate::lex::in_class(CharClass::Digit, t3@[k]));
                }
            }
            let lo = crate::literal::int_text_value(lo_text, 10);
            let hi = crate::literal::int_text_value(hi_text, 10);
            match (lo, hi) {
                (Ok((false, lov)), Ok((false, hiv))) => {
                    match read_branch_body(blank(r2), i) {
                        Ok((r3, op)) => Ok(
                            (r3, (MatchBranch::Range(lov as i128, hiv as i128), op)),
                        ),
                        Err(e) => Err(e),
                    }
                },
                _ => Err(PErr { fatal: true, ctx: Ctx::IntegerValue, rem: r2.len() }),
            }
        },
    }
}

/// Read a constant pattern branch.
#[verifier::rlimit(100)]
#[verifier::spinoff_prover]
fn read_constant_branch<'a>(i: &'a [u8]) -> (r: Result<
    (&'a [u8], (MatchBranch, NLOperation)),
    PErr,
>)
    ensures
        out_matches(r, spec_read_constant_branch(i@)),
    decreases i@.len(), 1int,
{
    reveal_with_fuel(spec_read_constant_branch, 1);
    reveal_with_fuel(spec_read_branch_body, 1);

    let t = blank(i);
    match read_constant_raw(t) {
        Ok((r1, c)) => {
            match read_branch_body(blank(r1), i) {
                Ok((r2, op)) => Ok((r2, (MatchBranch::Constant(c), op))),
                Err(e) => Err(e),
            }
        },
        Err(e) => Err(e),
    }
}

/// Read an enum-variant pattern branch.
#[verifier::rlimit(100)]
#[verifier::spinoff_prover]
fn read_enum_branch<'a>(i: &'a [u8]) -> (r: Result<(&'a [u8], (MatchBranch, NLOperation)), PErr>)
    ensures
        out_matches(r, spec_read_enum_branch(i@)),
    decreases i@.len(), 1int,
{
    reveal_with_fuel(spec_read_enum_branch, 1);
    reveal_with_fuel(spec_read_branch_body, 1);

    let t = blank(i);
    match read_variable_name(t) {
        Err(e) => Err(e),
        Ok((r1, enm)) => {
            let t2 = blank(r1);
            match tag(t2, Kw::PathSep) {
                None => Err(PErr { fatal: false, ctx: Ctx::Token, rem: t2.len() }),
                Some(after_sep) => {
                    let t3 = blank(after_sep);
                    match read_variable_name(t3) {
                        Err(e) => Err(e),
                        Ok((r2, vart)) => {
                            let t4 = blank(r2);
                            let (vars, t5) = match paren_inner(t4) {
                                Some((inner, rest)) => (bare_name_items(inner), rest),
                                None => (Vec::new(), t4),
                            };
                            proof {
                                if vars@.len() == 0 {
                                    assert(vars.deep_view() =~= Seq::<Seq<u8>>::empty());
                                }
                                assert(name_seq_view(vars@) =~= vars.deep_view());
                            }
                            match read_branch_body(t5, i) {
                                Ok((r3, op)) => Ok(
                                    (
                                        r3,
                                        (
                                            MatchBranch::Enum(
                                                MatchEnumBranch {
                                                    nl_enum: enm,
                                                    variant: vart,
                                                    variables: vars,
                                                },
                                            ),
                                            op,
                                        ),
                                    ),
                                ),
                                Err(e) => Err(e),
                            }
                        },
                    }
                },
            }
        },
    }
}

/// Read a match branch: range, constant, or enum pattern, in that order.
fn read_branch<'a>(i: &'a [u8]) -> (r: Result<(&'a [u8], (MatchBranch, NLOperation)), PErr>)
    ensures
        out_matches(r, spec_read_branch(i@)),
    decreases i@.len(), 2int,
{
    reveal_with_fuel(spec_read_branch, 1);
    reveal_with_fuel(spec_read_range_branch, 1);
    reveal_with_fuel(spec_read_constant_branch, 1);
    reveal_with_fuel(spec_read_enum_branch, 1);

    match read_range_branch(i) {
        Ok(p) => Ok(p),
        Err(e1) => {
            if e1.fatal {
                Err(e1)
            } else {
                match read_constant_branch(i) {
                    Ok(p) => Ok(p),
                    Err(e2) => {
                        if e2.fatal {
                            Err(e2)
                        } else {
                            read_enum_branch(i)
                        }
                    },
                }
            }
        },
    }
}

/// Read the branches of a match.
#[verifier::rlimit(100)]
#[verifier::spinoff_prover]
fn match_branch_items<'a>(t0: &'a [u8]) -> (r: Result<
    (&'a [u8], Vec<(MatchBranch, NLOperation)>),
    PErr,
>)
    ensures
        match r {
            Ok(p) => spec_match_branches(t0@, Seq::empty()) == PRes::<
                Seq<(MatchBranchV, OpV)>,
            >::Parsed(p.0@, branch_seq_view(p.1@)),
            Err(e) => spec_match_branches(t0@, Seq::empty()) == PRes::<
                Seq<(MatchBranchV, OpV)>,
            >::NoParse(e),
        },
    decreases t0@.len(), 6int,
{
    reveal_with_fuel(spec_match_branches, 1);
    reveal_with_fuel(spec_read_branch, 1);
    let mut cur = t0;
    let mut bs: Vec<(MatchBranch, NLOperation)> = Vec::new();
    proof {
        assert(branch_seq_view(bs@) =~= Seq::<(MatchBranchV, OpV)>::empty());
    }
    loop
        invariant
            cur@.len() <= t0@.len(),
            spec_match_branches(t0@, Seq::empty()) == spec_match_branches(
                cur@,
                branch_seq_view(bs@),
            ),
        decreases cur@.len(),
    {
        reveal_with_fuel(spec_match_branches, 1);
        reveal_with_fuel(spec_read_branch, 1);
        match read_branch(cur) {
            Err(e) => {
                if e.fatal {
                    return Err(e);
                } else {
                    return Ok((cur, bs));
                }
            },
            Ok((r, item)) => {
                let ghost prev = bs@;
                let ghost itemv = (item.0.deep_view(), item.1.deep_view());
                bs.push(item);
                proof {
                    lemma_branch_seq_view_push(prev, bs@[prev.len() as int]);
                    assert(bs@.drop_last() =~= prev);
                    assert(branch_seq_view(bs@) == branch_seq_view(prev).push(itemv));
                }
                match eat_byte(r, ',' as u8) {
                    Some(r2) => {
                        if r2.len() < cur.len() {
                            cur = r2;
                        } else {
                            return Ok((r2, bs));
                        }
                    },
                    None => {
                        return Ok((r, bs));
                    },
                }
            },
        }
    }
}

/// Read a `match`.
#[verifier::rlimit(50)]
#[verifier::spinoff_prover]
pub fn read_match<'a>(i: &'a [u8]) -> (r: Result<(&'a [u8], NLOperation), PErr>)
    ensures
        out_matches(r, spec_read_match(i@)),
    decreases i@.len(), 0int,
{
    reveal_with_fuel(spec_read_match, 1);
    reveal_with_fuel(spec_read_operation, 1);
    reveal_with_fuel(spec_match_branches, 1);

    let t = blank(i);
    match tag(t, Kw::Match) {
        None => Err(PErr { fatal: false, ctx: Ctx::Token, rem: t.len() }),
        Some(after) => {
            let t1 = blank(after);
            if t1.len() < i.len() {
                match read_operation(t1) {
                    Ok((r1, inp)) => {
                        let t2 = blank(r1);
                        match eat_byte(t2, '{' as u8) {
                            None => Err(PErr { fatal: false, ctx: Ctx::Token, rem: t2.len() }),
                            Some(after_brace) => {
                                let t3 = blank(after_brace);
                                if t3.len() < i.len() {
                                    match match_branch_items(t3) {
                                        Ok((r2, branches)) => {
                                            let t4 = blank(r2);
                                            match eat_byte(t4, '}' as u8) {
                                                Some(rest) => Ok(
                                                    (
                                                        rest,
                                                        NLOperation::Match(
                                                            Match {
                                                                input: Box::new(inp),
                                                                branches,
                                                            },
                                                        ),
                                                    ),
                                                ),
                                                None => Err(
                                                    PErr {
                                                        fatal: false,
                                                        ctx: Ctx::Token,
                                                        rem: t4.len(),
                                                    },
                                                ),
                                            }
                                        },
                                        Err(e) => Err(e),
                                    }
                                } else {
                                    Err(PErr { fatal: false, ctx: Ctx::Token, rem: t3.len() })
                                }
                            },
                        }
                    },
                    Err(e) => Err(e),
                }
            } else {
                Err(PErr { fatal: false, ctx: Ctx::Token, rem: t1.len() })
            }
        },
    }
}

/// Read a restricted operand.
#[verifier::rlimit(50)]
#[verifier::spinoff_prover]
pub fn read_sub_operation<'a>(i: &'a [u8]) -> (r: Result<(&'a [u8], NLOperation), PErr>)
    ensures
        out_matches(r, spec_read_sub_operation(i@)),
    decreases i@.len(), 2int,
{
    reveal_with_fuel(spec_read_sub_operation, 1);
    reveal_with_fuel(spec_read_code_block, 1);
    reveal_with_fuel(spec_read_tuple, 1);
    reveal_with_fuel(spec_read_function_call, 1);
    reveal_with_fuel(spec_read_assignment, 1);
    reveal_with_fuel(spec_read_urinary_operator, 1);

    match read_code_block(i) {
        Ok(p) => Ok(p),
        Err(e) => {
            if e.fatal {
                return Err(e);
            }
            match read_tuple(i) {
                Ok(p) => Ok(p),
                Err(e) => {
                    if e.fatal {
                        return Err(e);
                    }
                    match read_function_call(i) {
                        Ok(p) => Ok(p),
                        Err(e) => {
                            if e.fatal {
                                return Err(e);
                            }
                            match read_assignment(i) {
                                Ok(p) => Ok(p),
                                Err(e) => {
                                    if e.fatal {
                                        return Err(e);
                                    }
                                    match read_constant(i) {
                                        Ok(p) => Ok(p),
                                        Err(e) => {
                                            if e.fatal {
                                                return Err(e);
                                            }
                                            match read_urinary_operator(i) {
                                                Ok(p) => Ok(p),
                                                Err(e) => {
                                                    if e.fatal {
                                                        return Err(e);
                                                    }
                                                    read_variable_access(i)
                                                },
                                            }
                                        },
                                    }
                                },
                            }
                        },
                    }
                },
            }
        },
    }
}

/// Read the tail alternatives of the operation choice.
#[verifier::rlimit(50)]
#[verifier::spinoff_prover]
fn read_operation_tail<'a>(i: &'a [u8]) -> (r: Result<(&'a [u8], NLOperation), PErr>)
    ensures
        out_matches(r, spec_read_operation_tail(i@)),
    decreases i@.len(), 4int,
{
    reveal_with_fuel(spec_read_operation_tail, 1);
    reveal_with_fuel(spec_read_function_call, 1);
    reveal_with_fuel(spec_read_assignment, 1);
    reveal_with_fuel(spec_read_binary_operator, 1);
    reveal_with_fuel(spec_read_urinary_operator, 1);

    match read_function_call(i) {
        Ok(p) => Ok(p),
        Err(e) => {
            if e.fatal {
                return Err(e);
            }
            match read_assignment(i) {
                Ok(p) => Ok(p),
                Err(e) => {
                    if e.fatal {
                        return Err(e);
                    }
                    match read_binary_operator(i) {
                        Ok(p) => Ok(p),
                        Err(e) => {
                            if e.fatal {
                                return Err(e);
                            }
                            match read_constant(i) {
                                Ok(p) => Ok(p),
                                Err(e) => {
                                    if e.fatal {
                                        return Err(e);
                                    }
                                    match read_urinary_operator(i) {
                                        Ok(p) => Ok(p),
                                        Err(e) => {
                                            if e.fatal {
                                                return Err(e);
                                            }
                                            read_variable_access(i)
                                        },
                                    }
                                },
                            }
                        },
                    }
                },
            }
        },
    }
}

/// Read an operation: the full ordered choice over every operation form.
#[verifier::rlimit(50)]
#[verifier::spinoff_prover]
pub fn read_operation<'a>(i: &'a [u8]) -> (r: Result<(&'a [u8], NLOperation), PErr>)
    ensures
        out_matches(r, spec_read_operation(i@)),
    decreases i@.len(), 5int,
{
    reveal_with_fuel(spec_read_operation, 1);
    reveal_with_fuel(spec_read_code_block, 1);
    reveal_with_fuel(spec_read_if_statement, 1);
    reveal_with_fuel(spec_read_match, 1);
    reveal_with_fuel(spec_read_basic_loop, 1);
    reveal_with_fuel(spec_read_while_loop, 1);
    reveal_with_fuel(spec_read_for_loop, 1);
    reveal_with_fuel(spec_read_tuple, 1);
    reveal_with_fuel(spec_read_operation_tail, 1);

    match read_code_block(i) {
        Ok(p) => Ok(p),
        Err(e) => {
            if e.fatal {
                return Err(e);
            }
            match read_if_statement(i) {
                Ok(p) => Ok(p),
                Err(e) => {
                    if e.fatal {
                        return Err(e);
                    }
                    match read_match(i) {
                        Ok(p) => Ok(p),
                        Err(e) => {
                            if e.fatal {
                                return Err(e);
                            }
                            match read_break_keyword(i) {
                                Ok(p) => Ok(p),
                                Err(e) => {
                                    if e.fatal {
                                        return Err(e);
                                    }
                                    match read_basic_loop(i) {
                                        Ok(p) => Ok(p),
                                        Err(e) => {
                                            if e.fatal {
                                                return Err(e);
                                            }
                                            match read_while_loop(i) {
                                                Ok(p) => Ok(p),
                                                Err(e) => {
                                                    if e.fatal {
                                                        return Err(e);
                                                    }
                                                    match read_for_loop(i) {
                                                        Ok(p) => Ok(p),
                                                        Err(e) => {
                                                            if e.fatal {
                                                                return Err(e);
                                                            }
                                                            match read_tuple(i) {
                                                                Ok(p) => Ok(p),
                                                                Err(e) => {
                                                                    if e.fatal {
                                                                        return Err(e);
                                                                    }
                                                                    read_operation_tail(i)
                                                                },
                                                            }
                                                        },
                                                    }
                                                },
                                            }
                                        },
                                    }
                                },
                            }
                        },
                    }
                },
            }
        },
    }
}

} // verus!
