//! The abstract syntax tree produced by the parser.
//!
//! Names are owned copies of the bytes that spelled them in the source
//! buffer. The tree is pure and singly owned: operator operands and
//! assignment values are boxed sub-trees, everything else is held directly.
use vstd::prelude::*;

verus! {

/// Visibility of an item; kept for the naming-convention collaborator.
#[derive(Clone, Copy, Debug, PartialEq, Eq, Structural, PartialOrd, Ord)]
pub enum NLAccessRule {
    Internal,
    External,
}

/// A type as it appears in the surface syntax.
///
/// `Unit` is the "no type" marker: an elided return type, or the absence of
/// a cast. Nominal struct and trait references each come in three ownership
/// forms: owned, referenced, and mutably referenced.
#[derive(Debug, PartialEq)]
pub enum NLType {
    Unit,
    Boolean,
    I8,
    I16,
    I32,
    I64,
    U8,
    U16,
    U32,
    U64,
    F32,
    F64,
    OwnedString,
    BorrowedString,
    Tuple(Vec<NLType>),
    OwnedStruct(Vec<u8>),
    ReferencedStruct(Vec<u8>),
    MutableReferencedStruct(Vec<u8>),
    OwnedTrait(Vec<u8>),
    ReferencedTrait(Vec<u8>),
    MutableReferencedTrait(Vec<u8>),
    Enum(Vec<u8>),
    SelfReference,
    MutableSelfReference,
}

impl NLType {
    /// Bit width of the scalar types; zero for everything else.
    pub fn num_bits(&self) -> (r: u16)
        ensures
            r == self.spec_num_bits(),
    {
        match self {
            NLType::Boolean => 1,
            NLType::I8 => 8,
            NLType::I16 => 16,
            NLType::I32 => 32,
            NLType::I64 => 64,
            NLType::U8 => 8,
            NLType::U16 => 16,
            NLType::U32 => 32,
            NLType::U64 => 64,
            _ => 0,
        }
    }

    /// Bit width of the scalar types; zero for everything else.
    pub open spec fn spec_num_bits(&self) -> u16 {
        match self {
            NLType::Boolean => 1,
            NLType::I8 => 8,
            NLType::I16 => 16,
            NLType::I32 => 32,
            NLType::I64 => 64,
            NLType::U8 => 8,
            NLType::U16 => 16,
            NLType::U32 => 32,
            NLType::U64 => 64,
            _ => 0,
        }
    }

    pub fn is_boolean(&self) -> (r: bool)
        ensures
            r == (self is Boolean),
    {
        match self {
            NLType::Boolean => true,
            _ => false,
        }
    }

    pub fn is_integer(&self) -> (r: bool)
        ensures
            r == self.spec_is_integer(),
    {
        match self {
            NLType::I8 => true,
            NLType::I16 => true,
            NLType::I32 => true,
            NLType::I64 => true,
            NLType::U8 => true,
            NLType::U16 => true,
            NLType::U32 => true,
            NLType::U64 => true,
            _ => false,
        }
    }

    /// Whether this is one of the eight integer scalar types.
    pub open spec fn spec_is_integer(&self) -> bool {
        self.spec_is_signed() || self.spec_is_unsigned()
    }

    pub fn is_unsigned(&self) -> (r: bool)
        ensures
            r == self.spec_is_unsigned(),
    {
        match self {
            NLType::U8 => true,
            NLType::U16 => true,
            NLType::U32 => true,
            NLType::U64 => true,
            _ => false,
        }
    }

    /// Whether this is an unsigned integer scalar type.
    pub open spec fn spec_is_unsigned(&self) -> bool {
        self is U8 || self is U16 || self is U32 || self is U64
    }

    pub fn is_signed(&self) -> (r: bool)
        ensures
            r == self.spec_is_signed(),
    {
        match self {
            NLType::I8 => true,
            NLType::I16 => true,
            NLType::I32 => true,
            NLType::I64 => true,
            _ => false,
        }
    }

    /// Whether this is a signed integer scalar type.
    pub open spec fn spec_is_signed(&self) -> bool {
        self is I8 || self is I16 || self is I32 || self is I64
    }

    pub fn is_float(&self) -> (r: bool)
        ensures
            r == (self is F32 || self is F64),
    {
        match self {
            NLType::F32 => true,
            NLType::F64 => true,
            _ => false,
        }
    }
}

/// A named, typed variable owned by a struct.
#[derive(Debug, PartialEq)]
pub struct NLStructVariable {
    pub name: Vec<u8>,
    pub my_type: NLType,
}

impl NLStructVariable {
    pub fn get_name(&self) -> (r: &Vec<u8>)
        ensures
            r@ == self.name@,
    {
        &self.name
    }

    pub fn get_type(&self) -> (r: &NLType)
        ensures
            r == self.my_type,
    {
        &self.my_type
    }
}

/// A named, typed parameter of a function, method, getter, setter, or
/// enum-variant payload.
#[derive(Debug, PartialEq)]
pub struct NLArgument {
    pub name: Vec<u8>,
    pub nl_type: NLType,
}

impl NLArgument {
    pub fn get_name(&self) -> (r: &Vec<u8>)
        ensures
            r@ == self.name@,
    {
        &self.name
    }

    pub fn get_type(&self) -> (r: &NLType)
        ensures
            r == self.nl_type,
    {
        &self.nl_type
    }
}

/// An ordered sequence of operations between braces.
#[derive(Debug, PartialEq)]
pub struct NLBlock {
    pub operations: Vec<NLOperation>,
}

impl NLBlock {
    pub fn get_operations(&self) -> (r: &Vec<NLOperation>)
        ensures
            r == self.operations,
    {
        &self.operations
    }
}

/// A free function or a method: name, parameters, return type, and an
/// optional body. A missing body is a forward declaration.
#[derive(Debug, PartialEq)]
pub struct NLFunction {
    pub name: Vec<u8>,
    pub arguments: Vec<NLArgument>,
    pub return_type: NLType,
    pub block: Option<NLBlock>,
}

impl NLFunction {
    pub fn get_name(&self) -> (r: &Vec<u8>)
        ensures
            r@ == self.name@,
    {
        &self.name
    }

    pub fn get_arguments(&self) -> (r: &Vec<NLArgument>)
        ensures
            r == self.arguments,
    {
        &self.arguments
    }

    pub fn get_return_type(&self) -> (r: &NLType)
        ensures
            r == self.return_type,
    {
        &self.return_type
    }

    pub fn get_block(&self) -> (r: &Option<NLBlock>)
        ensures
            r == self.block,
    {
        &self.block
    }
}

/// A member of a trait or an implementation block.
#[derive(Debug, PartialEq)]
pub enum NLImplementor {
    Method(NLFunction),
    Getter(NLGetter),
    Setter(NLSetter),
}

/// The three mutually exclusive body states of a getter or setter: a
/// concrete block, an explicit forward declaration, or use of the default.
#[derive(Debug, PartialEq)]
pub enum NLEncapsulationBlock {
    Implemented(NLBlock),
    NotImplemented,
    UseDefault,
}

/// A getter: name, parameters, return type, and a three-state body.
#[derive(Debug, PartialEq)]
pub struct NLGetter {
    pub name: Vec<u8>,
    pub args: Vec<NLArgument>,
    pub nl_type: NLType,
    pub block: NLEncapsulationBlock,
}

impl NLGetter {
    pub fn get_name(&self) -> (r: &Vec<u8>)
        ensures
            r@ == self.name@,
    {
        &self.name
    }

    pub fn get_arguments(&self) -> (r: &Vec<NLArgument>)
        ensures
            r == self.args,
    {
        &self.args
    }

    pub fn get_type(&self) -> (r: &NLType)
        ensures
            r == self.nl_type,
    {
        &self.nl_type
    }

    pub fn get_block(&self) -> (r: &NLEncapsulationBlock)
        ensures
            r == self.block,
    {
        &self.block
    }
}

/// A setter: name, parameters, and a three-state body.
#[derive(Debug, PartialEq)]
pub struct NLSetter {
    pub name: Vec<u8>,
    pub args: Vec<NLArgument>,
    pub block: NLEncapsulationBlock,
}

impl NLSetter {
    pub fn get_name(&self) -> (r: &Vec<u8>)
        ensures
            r@ == self.name@,
    {
        &self.name
    }

    pub fn get_arguments(&self) -> (r: &Vec<NLArgument>)
        ensures
            r == self.args,
    {
        &self.args
    }

    pub fn get_block(&self) -> (r: &NLEncapsulationBlock)
        ensures
            r == self.block,
    {
        &self.block
    }
}

/// A struct declaration with its implementation blocks.
#[derive(Debug, PartialEq)]
pub struct NLStruct {
    pub name: Vec<u8>,
    pub variables: Vec<NLStructVariable>,
    pub implementations: Vec<NLImplementation>,
}

impl NLStruct {
    pub fn get_name(&self) -> (r: &Vec<u8>)
        ensures
            r@ == self.name@,
    {
        &self.name
    }

    pub fn get_variables(&self) -> (r: &Vec<NLStructVariable>)
        ensures
            r == self.variables,
    {
        &self.variables
    }

    pub fn get_implementations(&self) -> (r: &Vec<NLImplementation>)
        ensures
            r == self.implementations,
    {
        &self.implementations
    }
}

/// A trait declaration: signatures and optional default bodies.
#[derive(Debug, PartialEq)]
pub struct NLTrait {
    pub name: Vec<u8>,
    pub implementors: Vec<NLImplementor>,
}

impl NLTrait {
    pub fn get_name(&self) -> (r: &Vec<u8>)
        ensures
            r@ == self.name@,
    {
        &self.name
    }

    pub fn get_implementors(&self) -> (r: &Vec<NLImplementor>)
        ensures
            r == self.implementors,
    {
        &self.implementors
    }
}

/// An `impl` block: the target name (a struct, `Self`, or a trait) and its
/// members in source order.
#[derive(Debug, PartialEq)]
pub struct NLImplementation {
    pub name: Vec<u8>,
    pub implementors: Vec<NLImplementor>,
}

impl NLImplementation {
    pub fn get_name(&self) -> (r: &Vec<u8>)
        ensures
            r@ == self.name@,
    {
        &self.name
    }

    pub fn get_implementors(&self) -> (r: &Vec<NLImplementor>)
        ensures
            r == self.implementors,
    {
        &self.implementors
    }
}

/// One variant of an enum, with zero or more named, typed fields.
#[derive(Debug, PartialEq)]
pub struct EnumVariant {
    pub name: Vec<u8>,
    pub arguments: Vec<NLArgument>,
}

impl EnumVariant {
    pub fn get_name(&self) -> (r: &Vec<u8>)
        ensures
            r@ == self.name@,
    {
        &self.name
    }

    pub fn get_arguments(&self) -> (r: &Vec<NLArgument>)
        ensures
            r == self.arguments,
    {
        &self.arguments
    }
}

/// An enum declaration and its variants in source order.
#[derive(Debug, PartialEq)]
pub struct NLEnum {
    pub name: Vec<u8>,
    pub variants: Vec<EnumVariant>,
}

impl NLEnum {
    pub fn get_name(&self) -> (r: &Vec<u8>)
        ensures
            r@ == self.name@,
    {
        &self.name
    }

    pub fn get_variants(&self) -> (r: &Vec<EnumVariant>)
        ensures
            r == self.variants,
    {
        &self.variants
    }
}

/// A literal constant.
///
/// Integer literals carry the resolved width beside the 64-bit container
/// value. Fractional literals keep the exact digits they were spelled with;
/// converting them to machine floats is deferred to later stages. String
/// literals are returned unescaped.
#[derive(Debug, PartialEq)]
pub enum OpConstant {
    Boolean(bool),
    Unsigned(u64, NLType),
    Signed(i64, NLType),
    Float32(Vec<u8>),
    Float64(Vec<u8>),
    Text(Vec<u8>),
}

/// A variable named by an operation.
#[derive(Debug, PartialEq)]
pub struct OpVariable {
    pub name: Vec<u8>,
}

impl OpVariable {
    pub fn get_name(&self) -> (r: &Vec<u8>)
        ensures
            r@ == self.name@,
    {
        &self.name
    }
}

/// An assignment: `let` marks a definition; the targets are one name or a
/// parenthesized list; the optional type list follows a colon.
#[derive(Debug, PartialEq)]
pub struct OpAssignment {
    pub is_new: bool,
    pub to_assign: Vec<OpVariable>,
    pub type_assignments: Vec<NLType>,
    pub assignment: Box<NLOperation>,
}

impl OpAssignment {
    pub fn is_new(&self) -> (r: bool)
        ensures
            r == self.is_new,
    {
        self.is_new
    }

    pub fn get_variable_to_assign(&self) -> (r: &Vec<OpVariable>)
        ensures
            r == self.to_assign,
    {
        &self.to_assign
    }

    pub fn get_types(&self) -> (r: &Vec<NLType>)
        ensures
            r == self.type_assignments,
    {
        &self.type_assignments
    }

    pub fn get_value(&self) -> (r: &Box<NLOperation>)
        ensures
            r == self.assignment,
    {
        &self.assignment
    }
}

/// A unary or binary operator application; binary operands come from the
/// restricted sub-grammar, so operators never chain without grouping.
#[derive(Debug, PartialEq)]
pub enum OpOperator {
    CompareEqual(Box<NLOperation>, Box<NLOperation>),
    CompareNotEqual(Box<NLOperation>, Box<NLOperation>),
    CompareGreater(Box<NLOperation>, Box<NLOperation>),
    CompareLess(Box<NLOperation>, Box<NLOperation>),
    CompareGreaterEqual(Box<NLOperation>, Box<NLOperation>),
    CompareLessEqual(Box<NLOperation>, Box<NLOperation>),
    LogicalNegate(Box<NLOperation>),
    LogicalAnd(Box<NLOperation>, Box<NLOperation>),
    LogicalOr(Box<NLOperation>, Box<NLOperation>),
    LogicalXor(Box<NLOperation>, Box<NLOperation>),
    BitAnd(Box<NLOperation>, Box<NLOperation>),
    BitOr(Box<NLOperation>, Box<NLOperation>),
    BitXor(Box<NLOperation>, Box<NLOperation>),
    ArithmeticNegate(Box<NLOperation>),
    BitNegate(Box<NLOperation>),
    BitLeftShift(Box<NLOperation>, Box<NLOperation>),
    BitRightShift(Box<NLOperation>, Box<NLOperation>),
    PropError(Box<NLOperation>),
    ArithmeticMod(Box<NLOperation>, Box<NLOperation>),
    ArithmeticAdd(Box<NLOperation>, Box<NLOperation>),
    ArithmeticSub(Box<NLOperation>, Box<NLOperation>),
    ArithmeticMul(Box<NLOperation>, Box<NLOperation>),
    ArithmeticDiv(Box<NLOperation>, Box<NLOperation>),
    Range(Box<NLOperation>, Box<NLOperation>),
}

/// An `if` with its condition, true block, and (possibly empty) false block.
#[derive(Debug, PartialEq)]
pub struct IfStatement {
    pub condition: Box<NLOperation>,
    pub true_block: NLBlock,
    pub false_block: NLBlock,
}

/// A `while` loop.
#[derive(Debug, PartialEq)]
pub struct WhileLoop {
    pub condition: Box<NLOperation>,
    pub block: NLBlock,
}

/// A `for` loop binding a variable over an iterated operation.
#[derive(Debug, PartialEq)]
pub struct ForLoop {
    pub variable: OpVariable,
    pub iterator: Box<NLOperation>,
    pub block: NLBlock,
}

/// An enum-variant pattern in a match branch, binding field names.
#[derive(Debug, PartialEq)]
pub struct MatchEnumBranch {
    pub nl_enum: Vec<u8>,
    pub variant: Vec<u8>,
    pub variables: Vec<Vec<u8>>,
}

/// A match-branch pattern: an enum variant, a literal constant, or an
/// integer range.
#[derive(Debug, PartialEq)]
pub enum MatchBranch {
    Enum(MatchEnumBranch),
    Constant(OpConstant),
    Range(i128, i128),
    AllOther,
}

/// A `match` over an operation, with its branches in source order.
#[derive(Debug, PartialEq)]
pub struct Match {
    pub input: Box<NLOperation>,
    pub branches: Vec<(MatchBranch, NLOperation)>,
}

/// A call of a (possibly dotted) path on bare-name arguments.
#[derive(Debug, PartialEq)]
pub struct FunctionCall {
    pub path: Vec<u8>,
    pub arguments: Vec<Vec<u8>>,
}

/// One node of the executable expression tree.
#[derive(Debug, PartialEq)]
pub enum NLOperation {
    Block(NLBlock),
    Constant(OpConstant),
    Assign(OpAssignment),
    VariableAccess(OpVariable),
    Tuple(Vec<NLOperation>),
    Operator(OpOperator),
    If(IfStatement),
    Loop(NLBlock),
    WhileLoop(WhileLoop),
    ForLoop(ForLoop),
    Break,
    Match(Match),
    FunctionCall(FunctionCall),
}

/// The aggregate root: one parsed source file.
#[derive(Debug, PartialEq)]
pub struct NLFile {
    pub name: Vec<u8>,
    pub structs: Vec<NLStruct>,
    pub traits: Vec<NLTrait>,
    pub functions: Vec<NLFunction>,
    pub enums: Vec<NLEnum>,
}

impl NLFile {
    pub fn get_name(&self) -> (r: &Vec<u8>)
        ensures
            r@ == self.name@,
    {
        &self.name
    }

    pub fn get_structs(&self) -> (r: &Vec<NLStruct>)
        ensures
            r == self.structs,
    {
        &self.structs
    }

    pub fn get_traits(&self) -> (r: &Vec<NLTrait>)
        ensures
            r == self.traits,
    {
        &self.traits
    }

    pub fn get_functions(&self) -> (r: &Vec<NLFunction>)
        ensures
            r == self.functions,
    {
        &self.functions
    }

    pub fn get_enums(&self) -> (r: &Vec<NLEnum>)
        ensures
            r == self.enums,
    {
        &self.enums
    }
}

} // verus!
