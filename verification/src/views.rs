//! Mathematical views of the syntax tree.
//!
//! Every AST type has a mirror built from `Seq` and plain values; contracts
//! speak of these views. `DeepView` connects each tree to its mirror.
use vstd::prelude::*;
use crate::ast::{
    EnumVariant, ForLoop, FunctionCall, IfStatement, Match, MatchBranch, MatchEnumBranch,
    NLArgument, NLBlock, NLEncapsulationBlock, NLEnum, NLFunction, NLGetter, NLImplementation,
    NLImplementor, NLOperation, NLSetter, NLStruct, NLStructVariable, NLTrait, NLType, NLFile,
    OpAssignment, OpConstant, OpOperator, OpVariable, WhileLoop,
};

verus! {

broadcast use vstd::std_specs::vec::axiom_vec_decreases_to_view, vstd::std_specs::vec::axiom_vec_index_decreases;

/// View of `NLType`.
#[verifier::ext_equal]
pub enum TypeV {
    Unit,
    Boolean,
    I8,
    I16,
    I32,
    I64,
    U8,
    U16,
    U32,
    U64,
    F32,
    F64,
    OwnedString,
    BorrowedString,
    Tuple(Seq<TypeV>),
    OwnedStruct(Seq<u8>),
    ReferencedStruct(Seq<u8>),
    MutableReferencedStruct(Seq<u8>),
    OwnedTrait(Seq<u8>),
    ReferencedTrait(Seq<u8>),
    MutableReferencedTrait(Seq<u8>),
    Enum(Seq<u8>),
    SelfReference,
    MutableSelfReference,
}

/// Views of a sequence of types, in order.
pub open spec fn type_seq_view(s: Seq<NLType>) -> Seq<TypeV>
    decreases s,
{
    if s.len() == 0 {
        Seq::empty()
    } else {
        type_seq_view(s.drop_last()).push(s.last().deep_view())
    }
}

impl DeepView for NLType {
    type V = TypeV;

    open spec fn deep_view(&self) -> TypeV
        decreases self,
    {
        match self {
            NLType::Unit => TypeV::Unit,
            NLType::Boolean => TypeV::Boolean,
            NLType::I8 => TypeV::I8,
            NLType::I16 => TypeV::I16,
            NLType::I32 => TypeV::I32,
            NLType::I64 => TypeV::I64,
            NLType::U8 => TypeV::U8,
            NLType::U16 => TypeV::U16,
            NLType::U32 => TypeV::U32,
            NLType::U64 => TypeV::U64,
            NLType::F32 => TypeV::F32,
            NLType::F64 => TypeV::F64,
            NLType::OwnedString => TypeV::OwnedString,
            NLType::BorrowedString => TypeV::BorrowedString,
            NLType::Tuple(ts) => TypeV::Tuple(type_seq_view(ts@)),
            NLType::OwnedStruct(n) => TypeV::OwnedStruct(n@),
            NLType::ReferencedStruct(n) => TypeV::ReferencedStruct(n@),
            NLType::MutableReferencedStruct(n) => TypeV::MutableReferencedStruct(n@),
            NLType::OwnedTrait(n) => TypeV::OwnedTrait(n@),
            NLType::ReferencedTrait(n) => TypeV::ReferencedTrait(n@),
            NLType::MutableReferencedTrait(n) => TypeV::MutableReferencedTrait(n@),
            NLType::Enum(n) => TypeV::Enum(n@),
            NLType::SelfReference => TypeV::SelfReference,
            NLType::MutableSelfReference => TypeV::MutableSelfReference,
        }
    }
}

pub proof fn lemma_type_seq_view_push(s: Seq<NLType>, x: NLType)
    ensures
        type_seq_view(s.push(x)) == type_seq_view(s).push(x.deep_view()),
{
    assert(s.push(x).drop_last() =~= s);
    assert(s.push(x).last() == x);
}

pub proof fn lemma_type_seq_view_index(s: Seq<NLType>)
    ensures
        type_seq_view(s).len() == s.len(),
        forall|k: int| 0 <= k < s.len() ==> #[trigger] type_seq_view(s)[k] == s[k].deep_view(),
    decreases s.len(),
{
    if s.len() > 0 {
        lemma_type_seq_view_index(s.drop_last());
        assert(type_seq_view(s.drop_last()).len() == s.drop_last().len());
        assert(s.drop_last().len() == s.len() - 1);
        assert(type_seq_view(s) == type_seq_view(s.drop_last()).push(s.last().deep_view()));
        assert(type_seq_view(s).len() == s.len());
        assert forall|k: int| 0 <= k < s.len() implies #[trigger] type_seq_view(s)[k]
            == s[k].deep_view() by {
            if k < s.len() - 1 {
                assert(s.drop_last()[k] == s[k]);
                assert(type_seq_view(s)[k] == type_seq_view(s.drop_last())[k]);
            } else {
                assert(s.last() == s[k]);
            }
        }
    }
}

/// View of `NLStructVariable`.
#[verifier::ext_equal]
pub struct StructVarV {
    pub name: Seq<u8>,
    pub my_type: TypeV,
}

impl DeepView for NLStructVariable {
    type V = StructVarV;

    open spec fn deep_view(&self) -> StructVarV {
        StructVarV { name: self.name@, my_type: self.my_type.deep_view() }
    }
}

/// View of `NLArgument`.
#[verifier::ext_equal]
pub struct ArgV {
    pub name: Seq<u8>,
    pub nl_type: TypeV,
}

impl DeepView for NLArgument {
    type V = ArgV;

    open spec fn deep_view(&self) -> ArgV {
        ArgV { name: self.name@, nl_type: self.nl_type.deep_view() }
    }
}

/// View of `OpConstant`.
#[verifier::ext_equal]
pub enum ConstV {
    Boolean(bool),
    Unsigned(u64, TypeV),
    Signed(i64, TypeV),
    Float32(Seq<u8>),
    Float64(Seq<u8>),
    Text(Seq<u8>),
}

impl DeepView for OpConstant {
    type V = ConstV;

    open spec fn deep_view(&self) -> ConstV {
        match self {
            OpConstant::Boolean(b) => ConstV::Boolean(*b),
            OpConstant::Unsigned(v, t) => ConstV::Unsigned(*v, t.deep_view()),
            OpConstant::Signed(v, t) => ConstV::Signed(*v, t.deep_view()),
            OpConstant::Float32(d) => ConstV::Float32(d@),
            OpConstant::Float64(d) => ConstV::Float64(d@),
            OpConstant::Text(t) => ConstV::Text(t@),
        }
    }
}

/// View of `OpVariable`.
#[verifier::ext_equal]
pub struct VarV {
    pub name: Seq<u8>,
}

impl DeepView for OpVariable {
    type V = VarV;

    open spec fn deep_view(&self) -> VarV {
        VarV { name: self.name@ }
    }
}

/// Views of a sequence of byte-string names.
pub open spec fn name_seq_view(s: Seq<Vec<u8>>) -> Seq<Seq<u8>> {
    Seq::new(s.len(), |k: int| s[k]@)
}

/// View of `MatchEnumBranch`.
#[verifier::ext_equal]
pub struct MatchEnumBranchV {
    pub nl_enum: Seq<u8>,
    pub variant: Seq<u8>,
    pub variables: Seq<Seq<u8>>,
}

impl DeepView for MatchEnumBranch {
    type V = MatchEnumBranchV;

    open spec fn deep_view(&self) -> MatchEnumBranchV {
        MatchEnumBranchV {
            nl_enum: self.nl_enum@,
            variant: self.variant@,
            variables: name_seq_view(self.variables@),
        }
    }
}

/// View of `MatchBranch`.
#[verifier::ext_equal]
pub enum MatchBranchV {
    Enum(MatchEnumBranchV),
    Constant(ConstV),
    Range(i128, i128),
    AllOther,
}

impl DeepView for MatchBranch {
    type V = MatchBranchV;

    open spec fn deep_view(&self) -> MatchBranchV {
        match self {
            MatchBranch::Enum(b) => MatchBranchV::Enum(b.deep_view()),
            MatchBranch::Constant(c) => MatchBranchV::Constant(c.deep_view()),
            MatchBranch::Range(lo, hi) => MatchBranchV::Range(*lo, *hi),
            MatchBranch::AllOther => MatchBranchV::AllOther,
        }
    }
}

/// View of `FunctionCall`.
#[verifier::ext_equal]
pub struct CallV {
    pub path: Seq<u8>,
    pub arguments: Seq<Seq<u8>>,
}

impl DeepView for FunctionCall {
    type V = CallV;

    open spec fn deep_view(&self) -> CallV {
        CallV { path: self.path@, arguments: name_seq_view(self.arguments@) }
    }
}

/// View of `NLBlock`.
#[verifier::ext_equal]
pub struct BlockV {
    pub operations: Seq<OpV>,
}

/// View of `OpAssignment`.
#[verifier::ext_equal]
pub struct AssignV {
    pub is_new: bool,
    pub to_assign: Seq<VarV>,
    pub type_assignments: Seq<TypeV>,
    pub assignment: Box<OpV>,
}

/// View of `OpOperator`.
#[verifier::ext_equal]
pub enum OperV {
    CompareEqual(Box<OpV>, Box<OpV>),
    CompareNotEqual(Box<OpV>, Box<OpV>),
    CompareGreater(Box<OpV>, Box<OpV>),
    CompareLess(Box<OpV>, Box<OpV>),
    CompareGreaterEqual(Box<OpV>, Box<OpV>),
    CompareLessEqual(Box<OpV>, Box<OpV>),
    LogicalNegate(Box<OpV>),
    LogicalAnd(Box<OpV>, Box<OpV>),
    LogicalOr(Box<OpV>, Box<OpV>),
    LogicalXor(Box<OpV>, Box<OpV>),
    BitAnd(Box<OpV>, Box<OpV>),
    BitOr(Box<OpV>, Box<OpV>),
    BitXor(Box<OpV>, Box<OpV>),
    ArithmeticNegate(Box<OpV>),
    BitNegate(Box<OpV>),
    BitLeftShift(Box<OpV>, Box<OpV>),
    BitRightShift(Box<OpV>, Box<OpV>),
    PropError(Box<OpV>),
    ArithmeticMod(Box<OpV>, Box<OpV>),
    ArithmeticAdd(Box<OpV>, Box<OpV>),
    ArithmeticSub(Box<OpV>, Box<OpV>),
    ArithmeticMul(Box<OpV>, Box<OpV>),
    ArithmeticDiv(Box<OpV>, Box<OpV>),
    Range(Box<OpV>, Box<OpV>),
}

/// View of `IfStatement`.
#[verifier::ext_equal]
pub struct IfV {
    pub condition: Box<OpV>,
    pub true_block: BlockV,
    pub false_block: BlockV,
}

/// View of `WhileLoop`.
#[verifier::ext_equal]
pub struct WhileV {
    pub condition: Box<OpV>,
    pub block: BlockV,
}

/// View of `ForLoop`.
#[verifier::ext_equal]
pub struct ForV {
    pub variable: VarV,
    pub iterator: Box<OpV>,
    pub block: BlockV,
}

/// View of `Match`.
#[verifier::ext_equal]
pub struct MatchV {
    pub input: Box<OpV>,
    pub branches: Seq<(MatchBranchV, OpV)>,
}

/// View of `NLOperation`.
#[verifier::ext_equal]
pub enum OpV {
    Block(BlockV),
    Constant(ConstV),
    Assign(AssignV),
    VariableAccess(VarV),
    Tuple(Seq<OpV>),
    Operator(OperV),
    If(IfV),
    Loop(BlockV),
    WhileLoop(WhileV),
    ForLoop(ForV),
    Break,
    Match(MatchV),
    FunctionCall(CallV),
}

/// Views of a sequence of operations, in order.
pub open spec fn op_seq_view(s: Seq<NLOperation>) -> Seq<OpV>
    decreases s, 1int,
{
    if s.len() == 0 {
        Seq::empty()
    } else {
        op_seq_view(s.drop_last()).push(s.last().deep_view())
    }
}

/// Views of a sequence of match branches with their bodies, in order.
pub open spec fn branch_seq_view(s: Seq<(MatchBranch, NLOperation)>) -> Seq<(MatchBranchV, OpV)>
    decreases s, 1int,
{
    if s.len() == 0 {
        Seq::empty()
    } else {
        branch_seq_view(s.drop_last()).push(
            (s.last().0.deep_view(), s.last().1.deep_view()),
        )
    }
}

impl DeepView for NLBlock {
    type V = BlockV;

    open spec fn deep_view(&self) -> BlockV
        decreases self, 2int,
    {
        BlockV { operations: op_seq_view(self.operations@) }
    }
}

impl DeepView for OpAssignment {
    type V = AssignV;

    open spec fn deep_view(&self) -> AssignV
        decreases self, 2int,
    {
        AssignV {
            is_new: self.is_new,
            to_assign: self.to_assign.deep_view(),
            type_assignments: type_seq_view(self.type_assignments@),
            assignment: Box::new((*self.assignment).deep_view()),
        }
    }
}

impl DeepView for OpOperator {
    type V = OperV;

    open spec fn deep_view(&self) -> OperV
        decreases self, 2int,
    {
        match self {
            OpOperator::CompareEqual(a, b) => OperV::CompareEqual(
                Box::new((**a).deep_view()),
                Box::new((**b).deep_view()),
            ),
            OpOperator::CompareNotEqual(a, b) => OperV::CompareNotEqual(
                Box::new((**a).deep_view()),
                Box::new((**b).deep_view()),
            ),
            OpOperator::CompareGreater(a, b) => OperV::CompareGreater(
                Box::new((**a).deep_view()),
                Box::new((**b).deep_view()),
            ),
            OpOperator::CompareLess(a, b) => OperV::CompareLess(
                Box::new((**a).deep_view()),
                Box::new((**b).deep_view()),
            ),
            OpOperator::CompareGreaterEqual(a, b) => OperV::CompareGreaterEqual(
                Box::new((**a).deep_view()),
                Box::new((**b).deep_view()),
            ),
            OpOperator::CompareLessEqual(a, b) => OperV::CompareLessEqual(
                Box::new((**a).deep_view()),
                Box::new((**b).deep_view()),
            ),
            OpOperator::LogicalNegate(a) => OperV::LogicalNegate(Box::new((**a).deep_view())),
            OpOperator::LogicalAnd(a, b) => OperV::LogicalAnd(
                Box::new((**a).deep_view()),
                Box::new((**b).deep_view()),
            ),
            OpOperator::LogicalOr(a, b) => OperV::LogicalOr(
                Box::new((**a).deep_view()),
                Box::new((**b).deep_view()),
            ),
            OpOperator::LogicalXor(a, b) => OperV::LogicalXor(
                Box::new((**a).deep_view()),
                Box::new((**b).deep_view()),
            ),
            OpOperator::BitAnd(a, b) => OperV::BitAnd(
                Box::new((**a).deep_view()),
                Box::new((**b).deep_view()),
            ),
            OpOperator::BitOr(a, b) => OperV::BitOr(
                Box::new((**a).deep_view()),
                Box::new((**b).deep_view()),
            ),
            OpOperator::BitXor(a, b) => OperV::BitXor(
                Box::new((**a).deep_view()),
                Box::new((**b).deep_view()),
            ),
            OpOperator::ArithmeticNegate(a) => OperV::ArithmeticNegate(
                Box::new((**a).deep_view()),
            ),
            OpOperator::BitNegate(a) => OperV::BitNegate(Box::new((**a).deep_view())),
            OpOperator::BitLeftShift(a, b) => OperV::BitLeftShift(
                Box::new((**a).deep_view()),
                Box::new((**b).deep_view()),
            ),
            OpOperator::BitRightShift(a, b) => OperV::BitRightShift(
                Box::new((**a).deep_view()),
                Box::new((**b).deep_view()),
            ),
            OpOperator::PropError(a) => OperV::PropError(Box::new((**a).deep_view())),
            OpOperator::ArithmeticMod(a, b) => OperV::ArithmeticMod(
                Box::new((**a).deep_view()),
                Box::new((**b).deep_view()),
            ),
            OpOperator::ArithmeticAdd(a, b) => OperV::ArithmeticAdd(
                Box::new((**a).deep_view()),
                Box::new((**b).deep_view()),
            ),
            OpOperator::ArithmeticSub(a, b) => OperV::ArithmeticSub(
                Box::new((**a).deep_view()),
                Box::new((**b).deep_view()),
            ),
            OpOperator::ArithmeticMul(a, b) => OperV::ArithmeticMul(
                Box::new((**a).deep_view()),
                Box::new((**b).deep_view()),
            ),
            OpOperator::ArithmeticDiv(a, b) => OperV::ArithmeticDiv(
                Box::new((**a).deep_view()),
                Box::new((**b).deep_view()),
            ),
            OpOperator::Range(a, b) => OperV::Range(
                Box::new((**a).deep_view()),
                Box::new((**b).deep_view()),
            ),
        }
    }
}

impl DeepView for IfStatement {
    type V = IfV;

    open spec fn deep_view(&self) -> IfV
        decreases self, 2int,
    {
        IfV {
            condition: Box::new((*self.condition).deep_view()),
            true_block: self.true_block.deep_view(),
            false_block: self.false_block.deep_view(),
        }
    }
}

impl DeepView for WhileLoop {
    type V = WhileV;

    open spec fn deep_view(&self) -> WhileV
        decreases self, 2int,
    {
        WhileV {
            condition: Box::new((*self.condition).deep_view()),
            block: self.block.deep_view(),
        }
    }
}

impl DeepView for ForLoop {
    type V = ForV;

    open spec fn deep_view(&self) -> ForV
        decreases self, 2int,
    {
        ForV {
            variable: self.variable.deep_view(),
            iterator: Box::new((*self.iterator).deep_view()),
            block: self.block.deep_view(),
        }
    }
}

impl DeepView for Match {
    type V = MatchV;

    open spec fn deep_view(&self) -> MatchV
        decreases self, 2int,
    {
        MatchV {
            input: Box::new((*self.input).deep_view()),
            branches: branch_seq_view(self.branches@),
        }
    }
}

impl DeepView for NLOperation {
    type V = OpV;

    open spec fn deep_view(&self) -> OpV
        decreases self, 3int,
    {
        match self {
            NLOperation::Block(b) => OpV::Block(b.deep_view()),
            NLOperation::Constant(c) => OpV::Constant(c.deep_view()),
            NLOperation::Assign(a) => OpV::Assign(a.deep_view()),
            NLOperation::VariableAccess(v) => OpV::VariableAccess(v.deep_view()),
            NLOperation::Tuple(ops) => OpV::Tuple(op_seq_view(ops@)),
            NLOperation::Operator(o) => OpV::Operator(o.deep_view()),
            NLOperation::If(s) => OpV::If(s.deep_view()),
            NLOperation::Loop(b) => OpV::Loop(b.deep_view()),
            NLOperation::WhileLoop(w) => OpV::WhileLoop(w.deep_view()),
            NLOperation::ForLoop(f) => OpV::ForLoop(f.deep_view()),
            NLOperation::Break => OpV::Break,
            NLOperation::Match(m) => OpV::Match(m.deep_view()),
            NLOperation::FunctionCall(c) => OpV::FunctionCall(c.deep_view()),
        }
    }
}

pub proof fn lemma_op_seq_view_push(s: Seq<NLOperation>, x: NLOperation)
    ensures
        op_seq_view(s.push(x)) == op_seq_view(s).push(x.deep_view()),
{
    assert(s.push(x).drop_last() =~= s);
    assert(s.push(x).last() == x);
}

pub proof fn lemma_op_seq_view_index(s: Seq<NLOperation>)
    ensures
        op_seq_view(s).len() == s.len(),
        forall|k: int| 0 <= k < s.len() ==> #[trigger] op_seq_view(s)[k] == s[k].deep_view(),
    decreases s.len(),
{
    if s.len() > 0 {
        lemma_op_seq_view_index(s.drop_last());
        assert(op_seq_view(s.drop_last()).len() == s.drop_last().len());
        assert(s.drop_last().len() == s.len() - 1);
        assert(op_seq_view(s) == op_seq_view(s.drop_last()).push(s.last().deep_view()));
        assert(op_seq_view(s).len() == s.len());
        assert forall|k: int| 0 <= k < s.len() implies #[trigger] op_seq_view(s)[k]
            == s[k].deep_view() by {
            if k < s.len() - 1 {
                assert(s.drop_last()[k] == s[k]);
                assert(op_seq_view(s)[k] == op_seq_view(s.drop_last())[k]);
            } else {
                assert(s.last() == s[k]);
            }
        }
    }
}

pub proof fn lemma_branch_seq_view_push(s: Seq<(MatchBranch, NLOperation)>, x: (MatchBranch, NLOperation))
    ensures
        branch_seq_view(s.push(x)) == branch_seq_view(s).push(
            (x.0.deep_view(), x.1.deep_view()),
        ),
{
    assert(s.push(x).drop_last() =~= s);
    assert(s.push(x).last() == x);
}

pub proof fn lemma_branch_seq_view_index(s: Seq<(MatchBranch, NLOperation)>)
    ensures
        branch_seq_view(s).len() == s.len(),
        forall|k: int| 0 <= k < s.len() ==> #[trigger] branch_seq_view(s)[k] == (
            s[k].0.deep_view(),
            s[k].1.deep_view(),
        ),
    decreases s.len(),
{
    if s.len() > 0 {
        lemma_branch_seq_view_index(s.drop_last());
        assert(branch_seq_view(s.drop_last()).len() == s.drop_last().len());
        assert(s.drop_last().len() == s.len() - 1);
        assert(branch_seq_view(s) == branch_seq_view(s.drop_last()).push(
            (s.last().0.deep_view(), s.last().1.deep_view()),
        ));
        assert(branch_seq_view(s).len() == s.len());
        assert forall|k: int| 0 <= k < s.len() implies #[trigger] branch_seq_view(s)[k] == (
            s[k].0.deep_view(),
            s[k].1.deep_view(),
        ) by {
            if k < s.len() - 1 {
                assert(s.drop_last()[k] == s[k]);
                assert(branch_seq_view(s)[k] == branch_seq_view(s.drop_last())[k]);
            } else {
                assert(s.last() == s[k]);
            }
        }
    }
}

/// View of `NLFunction`.
#[verifier::ext_equal]
pub struct FuncV {
    pub name: Seq<u8>,
    pub arguments: Seq<ArgV>,
    pub return_type: TypeV,
    pub block: Option<BlockV>,
}

impl DeepView for NLFunction {
    type V = FuncV;

    open spec fn deep_view(&self) -> FuncV {
        FuncV {
            name: self.name@,
            arguments: self.arguments.deep_view(),
            return_type: self.return_type.deep_view(),
            block: match &self.block {
                Some(b) => Some(b.deep_view()),
                None => None,
            },
        }
    }
}

/// View of `NLEncapsulationBlock`.
#[verifier::ext_equal]
pub enum EncapBlockV {
    Implemented(BlockV),
    NotImplemented,
    UseDefault,
}

impl DeepView for NLEncapsulationBlock {
    type V = EncapBlockV;

    open spec fn deep_view(&self) -> EncapBlockV {
        match self {
            NLEncapsulationBlock::Implemented(b) => EncapBlockV::Implemented(b.deep_view()),
            NLEncapsulationBlock::NotImplemented => EncapBlockV::NotImplemented,
            NLEncapsulationBlock::UseDefault => EncapBlockV::UseDefault,
        }
    }
}

/// View of `NLGetter`.
#[verifier::ext_equal]
pub struct GetterV {
    pub name: Seq<u8>,
    pub args: Seq<ArgV>,
    pub nl_type: TypeV,
    pub block: EncapBlockV,
}

impl DeepView for NLGetter {
    type V = GetterV;

    open spec fn deep_view(&self) -> GetterV {
        GetterV {
            name: self.name@,
            args: self.args.deep_view(),
            nl_type: self.nl_type.deep_view(),
            block: self.block.deep_view(),
        }
    }
}

/// View of `NLSetter`.
#[verifier::ext_equal]
pub struct SetterV {
    pub name: Seq<u8>,
    pub args: Seq<ArgV>,
    pub block: EncapBlockV,
}

impl DeepView for NLSetter {
    type V = SetterV;

    open spec fn deep_view(&self) -> SetterV {
        SetterV {
            name: self.name@,
            args: self.args.deep_view(),
            block: self.block.deep_view(),
        }
    }
}

/// View of `NLImplementor`.
#[verifier::ext_equal]
pub enum ImplementorV {
    Method(FuncV),
    Getter(GetterV),
    Setter(SetterV),
}

impl DeepView for NLImplementor {
    type V = ImplementorV;

    open spec fn deep_view(&self) -> ImplementorV {
        match self {
            NLImplementor::Method(f) => ImplementorV::Method(f.deep_view()),
            NLImplementor::Getter(g) => ImplementorV::Getter(g.deep_view()),
            NLImplementor::Setter(s) => ImplementorV::Setter(s.deep_view()),
        }
    }
}

/// View of `NLImplementation`.
#[verifier::ext_equal]
pub struct ImplV {
    pub name: Seq<u8>,
    pub implementors: Seq<ImplementorV>,
}

impl DeepView for NLImplementation {
    type V = ImplV;

    open spec fn deep_view(&self) -> ImplV {
        ImplV { name: self.name@, implementors: self.implementors.deep_view() }
    }
}

/// View of `NLStruct`.
#[verifier::ext_equal]
pub struct StructV {
    pub name: Seq<u8>,
    pub variables: Seq<StructVarV>,
    pub implementations: Seq<ImplV>,
}

impl DeepView for NLStruct {
    type V = StructV;

    open spec fn deep_view(&self) -> StructV {
        StructV {
            name: self.name@,
            variables: self.variables.deep_view(),
            implementations: self.implementations.deep_view(),
        }
    }
}

/// View of `NLTrait`.
#[verifier::ext_equal]
pub struct TraitV {
    pub name: Seq<u8>,
    pub implementors: Seq<ImplementorV>,
}

impl DeepView for NLTrait {
    type V = TraitV;

    open spec fn deep_view(&self) -> TraitV {
        TraitV { name: self.name@, implementors: self.implementors.deep_view() }
    }
}

/// View of `EnumVariant`.
#[verifier::ext_equal]
pub struct EnumVariantV {
    pub name: Seq<u8>,
    pub arguments: Seq<ArgV>,
}

impl DeepView for EnumVariant {
    type V = EnumVariantV;

    open spec fn deep_view(&self) -> EnumVariantV {
        EnumVariantV { name: self.name@, arguments: self.arguments.deep_view() }
    }
}

/// View of `NLEnum`.
#[verifier::ext_equal]
pub struct EnumV {
    pub name: Seq<u8>,
    pub variants: Seq<EnumVariantV>,
}

impl DeepView for NLEnum {
    type V = EnumV;

    open spec fn deep_view(&self) -> EnumV {
        EnumV { name: self.name@, variants: self.variants.deep_view() }
    }
}

/// View of `NLFile`.
#[verifier::ext_equal]
pub struct FileV {
    pub name: Seq<u8>,
    pub structs: Seq<StructV>,
    pub traits: Seq<TraitV>,
    pub functions: Seq<FuncV>,
    pub enums: Seq<EnumV>,
}

impl DeepView for NLFile {
    type V = FileV;

    open spec fn deep_view(&self) -> FileV {
        FileV {
            name: self.name@,
            structs: self.structs.deep_view(),
            traits: self.traits.deep_view(),
            functions: self.functions.deep_view(),
            enums: self.enums.deep_view(),
        }
    }
}

} // verus!

