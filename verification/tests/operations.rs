//! Constants, operators, control flow, match statements, and calls.
use nl_parser::ast::{MatchBranch, NLOperation, NLType, OpConstant, OpOperator};
use nl_parser::expr::{read_assignment, read_operation, read_tuple};
use nl_parser::literal::read_constant;

fn read_op(code: &[u8]) -> NLOperation {
    let (_, op) = read_operation(code).expect("operation should parse");
    op
}

fn unwrap_constant(op: NLOperation) -> OpConstant {
    match op {
        NLOperation::Constant(constant) => constant,
        _ => panic!("Expected constant."),
    }
}

fn constant_boolean(op: &NLOperation) -> bool {
    match op {
        NLOperation::Constant(OpConstant::Boolean(b)) => *b,
        _ => panic!("Expected boolean for constant type."),
    }
}

fn constant_number(op: &NLOperation) -> i64 {
    match op {
        NLOperation::Constant(OpConstant::Signed(v, _)) => *v,
        NLOperation::Constant(OpConstant::Unsigned(v, _)) => *v as i64,
        _ => panic!("Expected integer for constant type."),
    }
}

#[test]
fn tests_number() {
    let constant = unwrap_constant(read_op(b"5"));
    match constant {
        OpConstant::Signed(value, cast) => {
            assert_eq!(value, 5, "Constant had wrong value.");
            assert_eq!(cast, NLType::I32, "Wrong type cast recommendation.");
        }
        _ => panic!("Expected integer for constant type."),
    }
}

#[test]
fn tests_negative_number() {
    let constant = unwrap_constant(read_op(b"-5"));
    match constant {
        OpConstant::Signed(value, cast) => {
            assert_eq!(value, -5, "Constant had wrong value.");
            assert_eq!(cast, NLType::I32, "Wrong type cast recommendation.");
        }
        _ => panic!("Expected i32 for constant type."),
    }
}

#[test]
fn tests_typed_number() {
    let (_, op) = read_constant(b"5i64").expect("constant should parse");
    match unwrap_constant(op) {
        OpConstant::Signed(value, cast) => {
            assert_eq!(value, 5, "Constant had wrong value.");
            assert_eq!(cast, NLType::I64, "Wrong type cast recommendation.");
        }
        _ => panic!("Expected i64 for constant type."),
    }
}

#[test]
fn tests_negative_typed_number() {
    let (_, op) = read_constant(b"-5i64").expect("constant should parse");
    match unwrap_constant(op) {
        OpConstant::Signed(value, cast) => {
            assert_eq!(value, -5, "Constant had wrong value.");
            assert_eq!(cast, NLType::I64, "Wrong type cast recommendation.");
        }
        _ => panic!("Expected i64 for constant type."),
    }
}

#[test]
fn tests_hex_number() {
    let (_, op) = read_constant(b"0xFF").expect("constant should parse");
    match unwrap_constant(op) {
        OpConstant::Signed(value, cast) => {
            assert_eq!(value, 255, "Constant had wrong value.");
            assert_eq!(cast, NLType::I32, "Wrong type cast recommendation.");
        }
        _ => panic!("Expected integer for constant type."),
    }
}

#[test]
fn tests_binary_and_octal_numbers() {
    let (_, op) = read_constant(b"0b101u8").expect("constant should parse");
    assert_eq!(
        unwrap_constant(op),
        OpConstant::Unsigned(5, NLType::U8),
        "Constant had wrong value."
    );
    let (_, op) = read_constant(b"0o17").expect("constant should parse");
    assert_eq!(
        unwrap_constant(op),
        OpConstant::Signed(15, NLType::I32),
        "Constant had wrong value."
    );
}

#[test]
fn tests_underscored_number() {
    let (_, op) = read_constant(b"1_000").expect("constant should parse");
    assert_eq!(
        unwrap_constant(op),
        OpConstant::Signed(1000, NLType::I32),
        "Constant had wrong value."
    );
}

#[test]
fn tests_out_of_range_number_is_fatal() {
    let result = read_constant(b"5000i8");
    match result {
        Err(e) => assert!(e.fatal, "an out-of-range literal must be fatal"),
        Ok(_) => panic!("an out-of-range literal must be rejected"),
    }
}

#[test]
fn tests_boolean_suffix_is_fatal() {
    let result = read_constant(b"5bool");
    match result {
        Err(e) => assert!(e.fatal, "a boolean-typed numeric literal must be fatal"),
        Ok(_) => panic!("a boolean-typed numeric literal must be rejected"),
    }
}

#[test]
fn tests_float() {
    let constant = unwrap_constant(read_op(b"5.5"));
    match constant {
        OpConstant::Float32(digits) => {
            let text = String::from_utf8(digits).expect("float digits are text");
            let value: f32 = text.parse().expect("float digits parse");
            assert_eq!(value, 5.5, "Constant had wrong value.");
        }
        _ => panic!("Expected float32 for constant type."),
    }
}

#[test]
fn tests_float_with_type() {
    let constant = unwrap_constant(read_op(b"5.5f64"));
    match constant {
        OpConstant::Float64(digits) => {
            let text = String::from_utf8(digits).expect("float digits are text");
            let value: f64 = text.parse().expect("float digits parse");
            assert_eq!(value, 5.5, "Constant had wrong value.");
        }
        _ => panic!("Expected float64 for constant type."),
    }
}

#[test]
fn tests_boolean_true() {
    match unwrap_constant(read_op(b"true")) {
        OpConstant::Boolean(b) => assert_eq!(b, true, "Constant had wrong value."),
        _ => panic!("Expected boolean for constant type."),
    }
}

#[test]
fn tests_boolean_false() {
    match unwrap_constant(read_op(b"false")) {
        OpConstant::Boolean(b) => assert_eq!(b, false, "Constant had wrong value."),
        _ => panic!("Expected boolean for constant type."),
    }
}

#[test]
fn tests_simple_string() {
    match unwrap_constant(read_op(b"\"A simple string.\"")) {
        OpConstant::Text(s) => {
            assert_eq!(s, b"A simple string.".to_vec(), "Constant had wrong value.")
        }
        _ => panic!("Expected string for constant type."),
    }
}

#[test]
fn tests_variable_access() {
    match read_op(b"bah") {
        NLOperation::VariableAccess(access) => {
            assert_eq!(access.name, b"bah".to_vec(), "Variable had wrong name.")
        }
        other => panic!("Expected variable access operation, got {:?}", other),
    }
}

#[test]
fn tests_tuple_empty() {
    let (_, t) = read_tuple(b"()").unwrap();
    match t {
        NLOperation::Tuple(items) => assert_eq!(items.len(), 0, "Wrong number of items in tuple."),
        _ => panic!("Expected a tuple."),
    }
}

#[test]
fn tests_tuple_two_items() {
    let (_, t) = read_tuple(b"(1, 2)").unwrap();
    match t {
        NLOperation::Tuple(items) => {
            assert_eq!(items.len(), 2, "Wrong number of items in tuple.");
            assert_eq!(
                items[0],
                NLOperation::Constant(OpConstant::Signed(1, NLType::I32)),
                "Wrong value used for first value."
            );
            assert_eq!(
                items[1],
                NLOperation::Constant(OpConstant::Signed(2, NLType::I32)),
                "Wrong value used for second value."
            );
        }
        _ => panic!("Expected a tuple."),
    }
}

#[test]
fn tests_tuple_three_items() {
    let (_, t) = read_tuple(b"(1, 2, 3)").unwrap();
    match t {
        NLOperation::Tuple(items) => {
            assert_eq!(items.len(), 3, "Wrong number of items in tuple.");
            assert_eq!(
                items[2],
                NLOperation::Constant(OpConstant::Signed(3, NLType::I32)),
                "Wrong value used for third value."
            );
        }
        _ => panic!("Expected a tuple."),
    }
}

#[test]
fn tests_single_variable_to_constant() {
    let (_, op) = read_assignment(b"let five = 5;").unwrap();
    match op {
        NLOperation::Assign(assign) => {
            assert_eq!(assign.is_new, true, "Assignment should have been new.");
            assert_eq!(assign.to_assign.len(), 1, "Wrong number of values being assigned.");
            assert_eq!(assign.type_assignments.len(), 0, "Unexpected type specified.");
            assert_eq!(
                assign.assignment,
                Box::new(NLOperation::Constant(OpConstant::Signed(5, NLType::I32))),
                "Wrong assignment."
            );
            assert_eq!(assign.to_assign[0].name, b"five".to_vec(), "Wrong name given to variable.");
        }
        _ => panic!("Expected assignment operation."),
    }
}

#[test]
fn tests_single_variable_to_constant_with_type_spec() {
    let (_, op) = read_assignment(b"let five: i32 = 5;").unwrap();
    match op {
        NLOperation::Assign(assign) => {
            assert_eq!(assign.is_new, true, "Assignment should have been new.");
            assert_eq!(assign.type_assignments[0], NLType::I32, "Unexpected type specified.");
            assert_eq!(assign.to_assign[0].name, b"five".to_vec(), "Wrong name given to variable.");
        }
        _ => panic!("Expected assignment operation."),
    }
}

#[test]
fn tests_single_variable_to_constant_scoped() {
    let (_, op) = read_assignment(b"let numbers.five = 5;").unwrap();
    match op {
        NLOperation::Assign(assign) => {
            assert_eq!(assign.is_new, true, "Assignment should have been new.");
            assert_eq!(
                assign.to_assign[0].name,
                b"numbers.five".to_vec(),
                "Wrong name given to variable."
            );
        }
        _ => panic!("Expected assignment operation."),
    }
}

#[test]
fn tests_assign_tuple() {
    let (_, op) = read_assignment(b"let (fore, five) = (4, 5);").unwrap();
    match op {
        NLOperation::Assign(assign) => {
            assert_eq!(assign.is_new, true, "Assignment should have been new.");
            assert_eq!(assign.to_assign.len(), 2, "Wrong number of values being assigned.");
            assert_eq!(assign.type_assignments.len(), 0, "Unexpected type specified.");
            assert_eq!(
                assign.assignment,
                Box::new(NLOperation::Tuple(vec![
                    NLOperation::Constant(OpConstant::Signed(4, NLType::I32)),
                    NLOperation::Constant(OpConstant::Signed(5, NLType::I32)),
                ])),
                "Wrong assignment."
            );
            assert_eq!(assign.to_assign[0].name, b"fore".to_vec(), "Wrong name given to variable.");
            assert_eq!(assign.to_assign[1].name, b"five".to_vec(), "Wrong name given to variable.");
        }
        _ => panic!("Expected assignment operation."),
    }
}

#[test]
fn tests_assign_no_define() {
    let (_, op) = read_assignment(b"five = 5;").unwrap();
    match op {
        NLOperation::Assign(assign) => {
            assert_eq!(assign.is_new, false, "Assignment should not have been new.");
            assert_eq!(assign.to_assign[0].name, b"five".to_vec(), "Wrong name given to variable.");
        }
        _ => panic!("Expected assignment operation."),
    }
}

fn binary_operands(code: &[u8]) -> OpOperator {
    match read_op(code) {
        NLOperation::Operator(op) => op,
        other => panic!("Expected operator, got {:?}", other),
    }
}

#[test]
fn tests_op_equal() {
    match binary_operands(b"2 == 3") {
        OpOperator::CompareEqual(a, b) => {
            assert_eq!(constant_number(&a), 2, "Wrong number for left operand.");
            assert_eq!(constant_number(&b), 3, "Wrong number for right operand.");
        }
        other => panic!("Expected equality comparison, got {:?}", other),
    }
}

#[test]
fn tests_op_not_equal() {
    match binary_operands(b"2 != 3") {
        OpOperator::CompareNotEqual(a, b) => {
            assert_eq!(constant_number(&a), 2, "Wrong number for left operand.");
            assert_eq!(constant_number(&b), 3, "Wrong number for right operand.");
        }
        other => panic!("Expected inequality comparison, got {:?}", other),
    }
}

#[test]
fn tests_op_greater_and_less() {
    assert!(matches!(binary_operands(b"2 > 3"), OpOperator::CompareGreater(..)));
    assert!(matches!(binary_operands(b"2 < 3"), OpOperator::CompareLess(..)));
    assert!(matches!(binary_operands(b"2 >= 3"), OpOperator::CompareGreaterEqual(..)));
    assert!(matches!(binary_operands(b"2 <= 3"), OpOperator::CompareLessEqual(..)));
}

#[test]
fn tests_op_logical() {
    match binary_operands(b"false && true") {
        OpOperator::LogicalAnd(a, b) => {
            assert_eq!(constant_boolean(&a), false, "Wrong value for constant.");
            assert_eq!(constant_boolean(&b), true, "Wrong value for constant.");
        }
        other => panic!("Expected logical and, got {:?}", other),
    }
    assert!(matches!(binary_operands(b"false || true"), OpOperator::LogicalOr(..)));
    assert!(matches!(binary_operands(b"false ^^ true"), OpOperator::LogicalXor(..)));
    match read_op(b"!false") {
        NLOperation::Operator(OpOperator::LogicalNegate(v)) => {
            assert_eq!(constant_boolean(&v), false, "Wrong value for constant.")
        }
        other => panic!("Expected logical negate, got {:?}", other),
    }
}

#[test]
fn tests_op_bitwise() {
    assert!(matches!(binary_operands(b"1 & 2"), OpOperator::BitAnd(..)));
    assert!(matches!(binary_operands(b"1 | 2"), OpOperator::BitOr(..)));
    assert!(matches!(binary_operands(b"1 ^ 2"), OpOperator::BitXor(..)));
    assert!(matches!(binary_operands(b"1 << 2"), OpOperator::BitLeftShift(..)));
    assert!(matches!(binary_operands(b"1 >> 2"), OpOperator::BitRightShift(..)));
    assert!(matches!(read_op(b"~0"), NLOperation::Operator(OpOperator::BitNegate(..))));
}

#[test]
fn tests_op_arithmetic() {
    match binary_operands(b"1 + 2") {
        OpOperator::ArithmeticAdd(a, b) => {
            assert_eq!(constant_number(&a), 1, "Wrong value for constant.");
            assert_eq!(constant_number(&b), 2, "Wrong value for constant.");
        }
        other => panic!("Expected addition, got {:?}", other),
    }
    assert!(matches!(binary_operands(b"1 - 2"), OpOperator::ArithmeticSub(..)));
    assert!(matches!(binary_operands(b"1 % 2"), OpOperator::ArithmeticMod(..)));
    assert!(matches!(binary_operands(b"1 / 2"), OpOperator::ArithmeticDiv(..)));
    assert!(matches!(binary_operands(b"1 * 2"), OpOperator::ArithmeticMul(..)));
    assert!(matches!(binary_operands(b"1 .. 2"), OpOperator::Range(..)));
}

#[test]
fn tests_op_negate() {
    match read_op(b"-(-5)") {
        NLOperation::Operator(OpOperator::ArithmeticNegate(v)) => match *v {
            NLOperation::Tuple(items) => {
                assert_eq!(items.len(), 1, "Tuple is wrong size.");
                assert_eq!(constant_number(&items[0]), -5, "Wrong value for constant.");
            }
            other => panic!("Expected tuple inside negate, got {:?}", other),
        },
        other => panic!("Expected arithmetic negate, got {:?}", other),
    }
}

#[test]
fn tests_basic_if() {
    match read_op(b"if true { false }") {
        NLOperation::If(statement) => {
            assert_eq!(constant_boolean(&statement.condition), true, "Wrong condition value read.");
            assert_eq!(
                statement.true_block.operations.len(),
                1,
                "Wrong number of operations in true block."
            );
            assert_eq!(
                constant_boolean(&statement.true_block.operations[0]),
                false,
                "Expected a false boolean in the true block."
            );
            assert_eq!(
                statement.false_block.operations.len(),
                0,
                "Wrong number of operations in false block."
            );
        }
        other => panic!("Expected if statement, got {:?}", other),
    }
}

#[test]
fn tests_if_else() {
    match read_op(b"if true { false } else { true }") {
        NLOperation::If(statement) => {
            assert_eq!(statement.true_block.operations.len(), 1);
            assert_eq!(statement.false_block.operations.len(), 1);
            assert_eq!(constant_boolean(&statement.false_block.operations[0]), true);
        }
        other => panic!("Expected if statement, got {:?}", other),
    }
}

#[test]
fn tests_and_if() {
    match read_op(b"if true && false {}") {
        NLOperation::If(statement) => match *statement.condition {
            NLOperation::Operator(OpOperator::LogicalAnd(a, b)) => {
                assert_eq!(constant_boolean(&a), true, "Expected true for op_a");
                assert_eq!(constant_boolean(&b), false, "Expected false for ob_b");
            }
            other => panic!("Expected logical and, got {:?}", other),
        },
        other => panic!("Expected if statement, got {:?}", other),
    }
}

#[test]
fn tests_basic_loop() {
    match read_op(b"loop { true }") {
        NLOperation::Loop(block) => {
            assert_eq!(block.operations.len(), 1, "Wrong number of operations in block.");
            assert_eq!(
                constant_boolean(&block.operations[0]),
                true,
                "Expected true for boolean value in block."
            );
        }
        other => panic!("Expected loop, got {:?}", other),
    }
}

#[test]
fn tests_while_loop() {
    match read_op(b"while true { false }") {
        NLOperation::WhileLoop(while_loop) => {
            assert_eq!(
                constant_boolean(&while_loop.condition),
                true,
                "Expected true value for condition."
            );
            assert_eq!(
                while_loop.block.operations.len(),
                1,
                "Wrong number of operations in block."
            );
        }
        other => panic!("Expected while loop, got {:?}", other),
    }
}

#[test]
fn tests_for_loop() {
    match read_op(b"for bah in false { true }") {
        NLOperation::ForLoop(for_loop) => {
            assert_eq!(for_loop.variable.name, b"bah".to_vec(), "Wrong name given to variable.");
            assert_eq!(constant_boolean(&for_loop.iterator), false, "Expected false for range.");
            assert_eq!(for_loop.block.operations.len(), 1, "Wrong number of operations in block.");
        }
        other => panic!("Expected for loop, got {:?}", other),
    }
}

#[test]
fn tests_break_keyword() {
    match read_op(b"break") {
        NLOperation::Break => {}
        other => panic!("Expected break operation, got {:?}", other),
    }
}

#[test]
fn tests_basic_match() {
    match read_op(b"match variable {}") {
        NLOperation::Match(m) => {
            match *m.input {
                NLOperation::VariableAccess(v) => assert_eq!(v.name, b"variable".to_vec()),
                other => panic!("Expected variable access, got {:?}", other),
            }
            assert_eq!(m.branches.len(), 0);
        }
        other => panic!("Expected match, got {:?}", other),
    }
}

#[test]
fn tests_one_branch() {
    match read_op(b"match variable { Enum::One => 0, }") {
        NLOperation::Match(m) => {
            assert_eq!(m.branches.len(), 1);
            let (branch, operation) = &m.branches[0];
            match branch {
                MatchBranch::Enum(b) => {
                    assert_eq!(b.nl_enum, b"Enum".to_vec());
                    assert_eq!(b.variant, b"One".to_vec());
                    assert_eq!(b.variables.len(), 0);
                }
                other => panic!("Expected enum branch, got {:?}", other),
            }
            assert_eq!(constant_number(operation), 0);
        }
        other => panic!("Expected match, got {:?}", other),
    }
}

#[test]
fn tests_one_branch_no_comma() {
    match read_op(b"match variable { Enum::One => 0 }") {
        NLOperation::Match(m) => assert_eq!(m.branches.len(), 1),
        other => panic!("Expected match, got {:?}", other),
    }
}

#[test]
fn tests_one_branch_one_variable() {
    match read_op(b"match variable { Enum::One(a) => 0, }") {
        NLOperation::Match(m) => {
            let (branch, _) = &m.branches[0];
            match branch {
                MatchBranch::Enum(b) => {
                    assert_eq!(b.variables.len(), 1);
                    assert_eq!(b.variables[0], b"a".to_vec());
                }
                other => panic!("Expected enum branch, got {:?}", other),
            }
        }
        other => panic!("Expected match, got {:?}", other),
    }
}

#[test]
fn tests_one_branch_two_variable() {
    match read_op(b"match variable { Enum::One(a, b) => 0, }") {
        NLOperation::Match(m) => {
            let (branch, _) = &m.branches[0];
            match branch {
                MatchBranch::Enum(b) => {
                    assert_eq!(b.variables.len(), 2);
                    assert_eq!(b.variables[0], b"a".to_vec());
                    assert_eq!(b.variables[1], b"b".to_vec());
                }
                other => panic!("Expected enum branch, got {:?}", other),
            }
        }
        other => panic!("Expected match, got {:?}", other),
    }
}

#[test]
fn tests_two_branch() {
    match read_op(b"match variable { Enum::One => 0, Enum::Two => 1, }") {
        NLOperation::Match(m) => {
            assert_eq!(m.branches.len(), 2);
            let (branch, operation) = &m.branches[1];
            match branch {
                MatchBranch::Enum(b) => assert_eq!(b.variant, b"Two".to_vec()),
                other => panic!("Expected enum branch, got {:?}", other),
            }
            assert_eq!(constant_number(operation), 1);
        }
        other => panic!("Expected match, got {:?}", other),
    }
}

#[test]
fn tests_two_branch_no_comma() {
    match read_op(b"match variable { Enum::One => 0, Enum::Two => 1 }") {
        NLOperation::Match(m) => assert_eq!(m.branches.len(), 2),
        other => panic!("Expected match, got {:?}", other),
    }
}

#[test]
fn tests_one_branch_constant() {
    match read_op(b"match variable { 42 => 0, }") {
        NLOperation::Match(m) => {
            let (branch, operation) = &m.branches[0];
            match branch {
                MatchBranch::Constant(OpConstant::Signed(v, _)) => assert_eq!(*v, 42),
                other => panic!("Expected integer for constant type, got {:?}", other),
            }
            assert_eq!(constant_number(operation), 0);
        }
        other => panic!("Expected match, got {:?}", other),
    }
}

#[test]
fn tests_one_branch_range() {
    match read_op(b"match variable { 25..42 => 0, }") {
        NLOperation::Match(m) => {
            let (branch, operation) = &m.branches[0];
            match branch {
                MatchBranch::Range(low, high) => {
                    assert_eq!(*low, 25);
                    assert_eq!(*high, 42);
                }
                other => panic!("Expected range branch, got {:?}", other),
            }
            assert_eq!(constant_number(operation), 0);
        }
        other => panic!("Expected match, got {:?}", other),
    }
}

#[test]
fn tests_call() {
    match read_op(b"function()") {
        NLOperation::FunctionCall(f) => {
            assert_eq!(f.path, b"function".to_vec());
            assert_eq!(f.arguments.len(), 0);
        }
        other => panic!("Expected function call, got {:?}", other),
    }
}

#[test]
fn tests_call_from_namespace() {
    match read_op(b"namespace.function()") {
        NLOperation::FunctionCall(f) => {
            assert_eq!(f.path, b"namespace.function".to_vec());
            assert_eq!(f.arguments.len(), 0);
        }
        other => panic!("Expected function call, got {:?}", other),
    }
}

#[test]
fn tests_call_one_arg() {
    match read_op(b"function(one)") {
        NLOperation::FunctionCall(f) => {
            assert_eq!(f.path, b"function".to_vec());
            assert_eq!(f.arguments.len(), 1);
            assert_eq!(f.arguments[0], b"one".to_vec());
        }
        other => panic!("Expected function call, got {:?}", other),
    }
}

#[test]
fn tests_call_two_arg() {
    match read_op(b"function(one, two)") {
        NLOperation::FunctionCall(f) => {
            assert_eq!(f.path, b"function".to_vec());
            assert_eq!(f.arguments.len(), 2);
            assert_eq!(f.arguments[0], b"one".to_vec());
            assert_eq!(f.arguments[1], b"two".to_vec());
        }
        other => panic!("Expected function call, got {:?}", other),
    }
}

#[test]
fn tests_fn_with_constant_body() {
    let file = nl_parser::root::parse_string(b"fn f() -> i32 { 5 }", b"virtual_file").unwrap();
    assert_eq!(file.functions.len(), 1);
    let f = &file.functions[0];
    assert_eq!(f.name, b"f".to_vec());
    assert_eq!(f.arguments.len(), 0);
    assert_eq!(f.return_type, NLType::I32);
    let block = f.block.as_ref().expect("function should have a body");
    assert_eq!(block.operations.len(), 1);
    assert_eq!(
        block.operations[0],
        NLOperation::Constant(OpConstant::Signed(5, NLType::I32))
    );
}

#[test]
fn tests_struct_two_typed_variables() {
    let file =
        nl_parser::root::parse_string(b"struct MyStruct { a: i32, b: i32 }", b"virtual_file")
            .unwrap();
    assert_eq!(file.structs.len(), 1);
    let s = &file.structs[0];
    assert_eq!(s.name, b"MyStruct".to_vec());
    assert_eq!(s.variables.len(), 2);
    assert_eq!(s.variables[0].name, b"a".to_vec());
    assert_eq!(s.variables[0].my_type, NLType::I32);
    assert_eq!(s.variables[1].name, b"b".to_vec());
    assert_eq!(s.variables[1].my_type, NLType::I32);
}

#[test]
fn tests_match_two_enum_branches_in_order() {
    match read_op(b"match v { E::A => 1, E::B(x) => 2 }") {
        NLOperation::Match(m) => {
            match *m.input {
                NLOperation::VariableAccess(v) => assert_eq!(v.name, b"v".to_vec()),
                other => panic!("Expected variable access, got {:?}", other),
            }
            assert_eq!(m.branches.len(), 2);
            match &m.branches[0].0 {
                MatchBranch::Enum(b) => {
                    assert_eq!(b.nl_enum, b"E".to_vec());
                    assert_eq!(b.variant, b"A".to_vec());
                    assert_eq!(b.variables.len(), 0);
                }
                other => panic!("Expected enum branch, got {:?}", other),
            }
            match &m.branches[1].0 {
                MatchBranch::Enum(b) => {
                    assert_eq!(b.variant, b"B".to_vec());
                    assert_eq!(b.variables, vec![b"x".to_vec()]);
                }
                other => panic!("Expected enum branch, got {:?}", other),
            }
            assert_eq!(constant_number(&m.branches[0].1), 1);
            assert_eq!(constant_number(&m.branches[1].1), 2);
        }
        other => panic!("Expected match, got {:?}", other),
    }
}
