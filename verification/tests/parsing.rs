//! Argument-list, method, getter, setter, and root-level parsing.
use nl_parser::ast::{NLArgument, NLEncapsulationBlock, NLImplementor, NLType};
use nl_parser::decl::{
    read_argument_deceleration_list, read_getter, read_method, read_setter,
};
use nl_parser::root::parse_string;

fn read_args(code: &[u8]) -> Vec<NLArgument> {
    let (_, args) = read_argument_deceleration_list(code).expect("argument list should parse");
    args
}

fn read_method_named(code: &[u8]) -> nl_parser::ast::NLFunction {
    let (_, im) = read_method(code).expect("method should parse");
    match im {
        NLImplementor::Method(m) => m,
        _ => panic!("Did not get a method."),
    }
}

#[test]
fn tests_empty() {
    let args = read_args(b"()");
    assert_eq!(args.len(), 0, "Wrong number of args.");
}

#[test]
fn tests_single_arg() {
    let args = read_args(b"(argA : i32)");
    assert_eq!(args.len(), 1, "Wrong number of args.");
    assert_eq!(args[0].name, b"argA".to_vec(), "Wrong argument name.");
    assert_eq!(args[0].nl_type, NLType::I32, "Wrong argument type.");
}

#[test]
fn tests_two_args() {
    let args = read_args(b"(argA : i32, argB : i16)");
    assert_eq!(args.len(), 2, "Wrong number of args.");
    assert_eq!(args[0].name, b"argA".to_vec(), "Wrong argument name.");
    assert_eq!(args[0].nl_type, NLType::I32, "Wrong argument type.");
    assert_eq!(args[1].name, b"argB".to_vec(), "Wrong argument name.");
    assert_eq!(args[1].nl_type, NLType::I16, "Wrong argument type.");
}

#[test]
fn tests_three_args() {
    let args = read_args(b"(argA : i32, argB : i16, argC: i8)");
    assert_eq!(args.len(), 3, "Wrong number of args.");
    assert_eq!(args[0].name, b"argA".to_vec(), "Wrong argument name.");
    assert_eq!(args[0].nl_type, NLType::I32, "Wrong argument type.");
    assert_eq!(args[1].name, b"argB".to_vec(), "Wrong argument name.");
    assert_eq!(args[1].nl_type, NLType::I16, "Wrong argument type.");
    assert_eq!(args[2].name, b"argC".to_vec(), "Wrong argument name.");
    assert_eq!(args[2].nl_type, NLType::I8, "Wrong argument type.");
}

#[test]
fn tests_self_reference_arg() {
    let args = read_args(b"(&self)");
    assert_eq!(args.len(), 1, "Wrong number of args.");
    assert_eq!(args[0].name, b"self".to_vec(), "Wrong argument name.");
    assert_eq!(args[0].nl_type, NLType::SelfReference, "Wrong argument type.");
}

#[test]
fn tests_mutable_self_reference_arg() {
    let args = read_args(b"(&mut self)");
    assert_eq!(args.len(), 1, "Wrong number of args.");
    assert_eq!(args[0].name, b"self".to_vec(), "Wrong argument name.");
    assert_eq!(args[0].nl_type, NLType::MutableSelfReference, "Wrong argument type.");
}

#[test]
fn tests_mutable_self_reference_arg_odd_spacing() {
    let args = read_args(b"(&mut\tself)");
    assert_eq!(args.len(), 1, "Wrong number of args.");
    assert_eq!(args[0].name, b"self".to_vec(), "Wrong argument name.");
    assert_eq!(args[0].nl_type, NLType::MutableSelfReference, "Wrong argument type.");
}

#[test]
fn tests_self_reference_arg_odd_pre_space() {
    let args = read_args(b"(& self)");
    assert_eq!(args.len(), 1, "Wrong number of args.");
    assert_eq!(args[0].name, b"self".to_vec(), "Wrong argument name.");
    assert_eq!(args[0].nl_type, NLType::SelfReference, "Wrong argument type.");
}

#[test]
fn tests_mutable_self_reference_arg_odd_pre_space() {
    let args = read_args(b"(& mut self)");
    assert_eq!(args.len(), 1, "Wrong number of args.");
    assert_eq!(args[0].name, b"self".to_vec(), "Wrong argument name.");
    assert_eq!(args[0].nl_type, NLType::MutableSelfReference, "Wrong argument type.");
}

#[test]
fn tests_struct_reference() {
    let args = read_args(b"(var: &SomeStruct)");
    assert_eq!(args.len(), 1, "Wrong number of args.");
    assert_eq!(args[0].name, b"var".to_vec(), "Wrong argument name.");
    assert_eq!(
        args[0].nl_type,
        NLType::ReferencedStruct(b"SomeStruct".to_vec()),
        "Wrong argument type."
    );
}

#[test]
fn tests_mutable_struct_reference() {
    let args = read_args(b"(var: &mut SomeStruct)");
    assert_eq!(args.len(), 1, "Wrong number of args.");
    assert_eq!(args[0].name, b"var".to_vec(), "Wrong argument name.");
    assert_eq!(
        args[0].nl_type,
        NLType::MutableReferencedStruct(b"SomeStruct".to_vec()),
        "Wrong argument type."
    );
}

#[test]
fn tests_struct_owned() {
    let args = read_args(b"(var: SomeStruct)");
    assert_eq!(args.len(), 1, "Wrong number of args.");
    assert_eq!(args[0].name, b"var".to_vec(), "Wrong argument name.");
    assert_eq!(
        args[0].nl_type,
        NLType::OwnedStruct(b"SomeStruct".to_vec()),
        "Wrong argument type."
    );
}

#[test]
fn tests_trait_reference() {
    let args = read_args(b"(var: &dyn SomeTrait)");
    assert_eq!(args.len(), 1, "Wrong number of args.");
    assert_eq!(args[0].name, b"var".to_vec(), "Wrong argument name.");
    assert_eq!(
        args[0].nl_type,
        NLType::ReferencedTrait(b"SomeTrait".to_vec()),
        "Wrong argument type."
    );
}

#[test]
fn tests_mutable_trait_reference() {
    let args = read_args(b"(var: &mut dyn SomeTrait)");
    assert_eq!(args.len(), 1, "Wrong number of args.");
    assert_eq!(args[0].name, b"var".to_vec(), "Wrong argument name.");
    assert_eq!(
        args[0].nl_type,
        NLType::MutableReferencedTrait(b"SomeTrait".to_vec()),
        "Wrong argument type."
    );
}

#[test]
fn tests_trait_owned() {
    let args = read_args(b"(var: dyn SomeTrait)");
    assert_eq!(args.len(), 1, "Wrong number of args.");
    assert_eq!(args[0].name, b"var".to_vec(), "Wrong argument name.");
    assert_eq!(
        args[0].nl_type,
        NLType::OwnedTrait(b"SomeTrait".to_vec()),
        "Wrong argument type."
    );
}

#[test]
fn tests_method_no_arg_no_return_no_impl() {
    let method = read_method_named(b"met my_method();");
    assert_eq!(method.name, b"my_method".to_vec(), "Method had wrong name.");
    assert_eq!(method.arguments.len(), 0, "Wrong number of arguments.");
    assert_eq!(method.return_type, NLType::Unit, "Wrong return type.");
    assert_eq!(method.block.is_none(), true, "Method should not have been implemented.");
}

#[test]
fn tests_method_no_arg_return_i32_no_impl() {
    let method = read_method_named(b"met my_method() -> i32;");
    assert_eq!(method.name, b"my_method".to_vec(), "Method had wrong name.");
    assert_eq!(method.arguments.len(), 0, "Wrong number of arguments.");
    assert_eq!(method.return_type, NLType::I32, "Wrong return type.");
    assert_eq!(method.block.is_none(), true, "Method should not have been implemented.");
}

#[test]
fn tests_method_no_arg_no_return_implemented() {
    let method = read_method_named(b"met my_method() {}");
    assert_eq!(method.name, b"my_method".to_vec(), "Method had wrong name.");
    assert_eq!(method.arguments.len(), 0, "Wrong number of arguments.");
    assert_eq!(method.return_type, NLType::Unit, "Wrong return type.");
    assert_eq!(method.block.is_none(), false, "Method should have been implemented.");
}

#[test]
fn tests_method_no_arg_return_i32_implemented() {
    let method = read_method_named(b"met my_method() -> i32 {}");
    assert_eq!(method.name, b"my_method".to_vec(), "Method had wrong name.");
    assert_eq!(method.arguments.len(), 0, "Wrong number of arguments.");
    assert_eq!(method.return_type, NLType::I32, "Wrong return type.");
    assert_eq!(method.block.is_none(), false, "Method should have been implemented.");
}

#[test]
fn test_empty() {
    let args = read_args(b"()");
    assert_eq!(args.len(), 0, "Wrong number of args.");
}

#[test]
fn test_single_arg() {
    let args = read_args(b"(argA : i32)");
    assert_eq!(args.len(), 1, "Wrong number of args.");
    assert_eq!(args[0].name, b"argA".to_vec(), "Wrong argument name.");
    assert_eq!(args[0].nl_type, NLType::I32, "Wrong argument type.");
}

#[test]
fn test_two_args() {
    let args = read_args(b"(argA : i32, argB : i16)");
    assert_eq!(args.len(), 2, "Wrong number of args.");
    assert_eq!(args[0].name, b"argA".to_vec(), "Wrong argument name.");
    assert_eq!(args[0].nl_type, NLType::I32, "Wrong argument type.");
    assert_eq!(args[1].name, b"argB".to_vec(), "Wrong argument name.");
    assert_eq!(args[1].nl_type, NLType::I16, "Wrong argument type.");
}

#[test]
fn test_three_args() {
    let args = read_args(b"(argA : i32, argB : i16, argC: i8)");
    assert_eq!(args.len(), 3, "Wrong number of args.");
    assert_eq!(args[0].name, b"argA".to_vec(), "Wrong argument name.");
    assert_eq!(args[0].nl_type, NLType::I32, "Wrong argument type.");
    assert_eq!(args[1].name, b"argB".to_vec(), "Wrong argument name.");
    assert_eq!(args[1].nl_type, NLType::I16, "Wrong argument type.");
    assert_eq!(args[2].name, b"argC".to_vec(), "Wrong argument name.");
    assert_eq!(args[2].nl_type, NLType::I8, "Wrong argument type.");
}

#[test]
fn test_self_reference_arg() {
    let args = read_args(b"(&self)");
    assert_eq!(args.len(), 1, "Wrong number of args.");
    assert_eq!(args[0].name, b"self".to_vec(), "Wrong argument name.");
    assert_eq!(args[0].nl_type, NLType::SelfReference, "Wrong argument type.");
}

#[test]
fn test_mutable_self_reference_arg() {
    let args = read_args(b"(&mut self)");
    assert_eq!(args.len(), 1, "Wrong number of args.");
    assert_eq!(args[0].name, b"self".to_vec(), "Wrong argument name.");
    assert_eq!(args[0].nl_type, NLType::MutableSelfReference, "Wrong argument type.");
}

#[test]
fn test_mutable_self_reference_arg_odd_spacing() {
    let args = read_args(b"(&mut\tself)");
    assert_eq!(args.len(), 1, "Wrong number of args.");
    assert_eq!(args[0].name, b"self".to_vec(), "Wrong argument name.");
    assert_eq!(args[0].nl_type, NLType::MutableSelfReference, "Wrong argument type.");
}

#[test]
fn test_self_reference_arg_odd_pre_space() {
    let args = read_args(b"(& self)");
    assert_eq!(args.len(), 1, "Wrong number of args.");
    assert_eq!(args[0].name, b"self".to_vec(), "Wrong argument name.");
    assert_eq!(args[0].nl_type, NLType::SelfReference, "Wrong argument type.");
}

#[test]
fn test_mutable_self_reference_arg_odd_pre_space() {
    let args = read_args(b"(& mut self)");
    assert_eq!(args.len(), 1, "Wrong number of args.");
    assert_eq!(args[0].name, b"self".to_vec(), "Wrong argument name.");
    assert_eq!(args[0].nl_type, NLType::MutableSelfReference, "Wrong argument type.");
}

#[test]
fn test_struct_reference() {
    let args = read_args(b"(var: &SomeStruct)");
    assert_eq!(args.len(), 1, "Wrong number of args.");
    assert_eq!(args[0].name, b"var".to_vec(), "Wrong argument name.");
    assert_eq!(
        args[0].nl_type,
        NLType::ReferencedStruct(b"SomeStruct".to_vec()),
        "Wrong argument type."
    );
}

#[test]
fn test_mutable_struct_reference() {
    let args = read_args(b"(var: &mut SomeStruct)");
    assert_eq!(args.len(), 1, "Wrong number of args.");
    assert_eq!(args[0].name, b"var".to_vec(), "Wrong argument name.");
    assert_eq!(
        args[0].nl_type,
        NLType::MutableReferencedStruct(b"SomeStruct".to_vec()),
        "Wrong argument type."
    );
}

#[test]
fn test_struct_owned() {
    let args = read_args(b"(var: SomeStruct)");
    assert_eq!(args.len(), 1, "Wrong number of args.");
    assert_eq!(args[0].name, b"var".to_vec(), "Wrong argument name.");
    assert_eq!(
        args[0].nl_type,
        NLType::OwnedStruct(b"SomeStruct".to_vec()),
        "Wrong argument type."
    );
}

#[test]
fn test_trait_reference() {
    let args = read_args(b"(var: &dyn SomeTrait)");
    assert_eq!(args.len(), 1, "Wrong number of args.");
    assert_eq!(args[0].name, b"var".to_vec(), "Wrong argument name.");
    assert_eq!(
        args[0].nl_type,
        NLType::ReferencedTrait(b"SomeTrait".to_vec()),
        "Wrong argument type."
    );
}

#[test]
fn test_mutable_trait_reference() {
    let args = read_args(b"(var: &mut dyn SomeTrait)");
    assert_eq!(args.len(), 1, "Wrong number of args.");
    assert_eq!(args[0].name, b"var".to_vec(), "Wrong argument name.");
    assert_eq!(
        args[0].nl_type,
        NLType::MutableReferencedTrait(b"SomeTrait".to_vec()),
        "Wrong argument type."
    );
}

#[test]
fn test_trait_owned() {
    let args = read_args(b"(var: dyn SomeTrait)");
    assert_eq!(args.len(), 1, "Wrong number of args.");
    assert_eq!(args[0].name, b"var".to_vec(), "Wrong argument name.");
    assert_eq!(
        args[0].nl_type,
        NLType::OwnedTrait(b"SomeTrait".to_vec()),
        "Wrong argument type."
    );
}

#[test]
fn test_method_no_arg_no_return_no_impl() {
    let method = read_method_named(b"met my_method();");
    assert_eq!(method.name, b"my_method".to_vec(), "Method had wrong name.");
    assert_eq!(method.arguments.len(), 0, "Wrong number of arguments.");
    assert_eq!(method.return_type, NLType::Unit, "Wrong return type.");
    assert_eq!(method.block.is_none(), true, "Method should not have been implemented.");
}

#[test]
fn test_method_no_arg_return_i32_no_impl() {
    let method = read_method_named(b"met my_method() -> i32;");
    assert_eq!(method.name, b"my_method".to_vec(), "Method had wrong name.");
    assert_eq!(method.arguments.len(), 0, "Wrong number of arguments.");
    assert_eq!(method.return_type, NLType::I32, "Wrong return type.");
    assert_eq!(method.block.is_none(), true, "Method should not have been implemented.");
}

#[test]
fn test_method_no_arg_no_return_implemented() {
    let method = read_method_named(b"met my_method() {}");
    assert_eq!(method.name, b"my_method".to_vec(), "Method had wrong name.");
    assert_eq!(method.arguments.len(), 0, "Wrong number of arguments.");
    assert_eq!(method.return_type, NLType::Unit, "Wrong return type.");
    assert_eq!(method.block.is_none(), false, "Method should have been implemented.");
}

#[test]
fn test_method_no_arg_return_i32_implemented() {
    let method = read_method_named(b"met my_method() -> i32 {}");
    assert_eq!(method.name, b"my_method".to_vec(), "Method had wrong name.");
    assert_eq!(method.arguments.len(), 0, "Wrong number of arguments.");
    assert_eq!(method.return_type, NLType::I32, "Wrong return type.");
    assert_eq!(method.block.is_none(), false, "Method should have been implemented.");
}

#[test]
fn tests_getter_default_impl() {
    let (_, im) = read_getter(b"get my_getter:default;").expect("getter should parse");
    let getter = match im {
        NLImplementor::Getter(g) => g,
        _ => panic!("Did not get a getter."),
    };
    assert_eq!(getter.name, b"my_getter".to_vec(), "Getter did not have expected name.");
    assert_eq!(
        getter.block,
        NLEncapsulationBlock::UseDefault,
        "Getter did not state use of default implementation."
    );
    assert_eq!(getter.nl_type, NLType::Unit, "Getter did not have correct return type.");
}

#[test]
fn tests_getter_impl() {
    let (_, im) = read_getter(b"get my_getter(&self) -> i32 {}").expect("getter should parse");
    let getter = match im {
        NLImplementor::Getter(g) => g,
        _ => panic!("Did not get a getter."),
    };
    assert_eq!(getter.name, b"my_getter".to_vec(), "Getter did not have expected name.");
    assert_ne!(
        getter.block,
        NLEncapsulationBlock::UseDefault,
        "Getter did not state use of default implementation."
    );
    assert_ne!(
        getter.block,
        NLEncapsulationBlock::NotImplemented,
        "Getter did not state use of default implementation."
    );
    assert_eq!(getter.nl_type, NLType::I32, "Getter did not have correct return type.");
}

#[test]
fn tests_getter_no_impl() {
    let (_, im) = read_getter(b"get my_getter(&self) -> i32;").expect("getter should parse");
    let getter = match im {
        NLImplementor::Getter(g) => g,
        _ => panic!("Did not get a getter."),
    };
    assert_eq!(getter.name, b"my_getter".to_vec(), "Getter did not have expected name.");
    assert_eq!(
        getter.block,
        NLEncapsulationBlock::NotImplemented,
        "Getter did not state use of no implementation."
    );
    assert_eq!(getter.nl_type, NLType::I32, "Getter did not have correct return type.");
}

#[test]
fn tests_setter_default_impl() {
    let (_, im) = read_setter(b"set my_setter:default;").expect("setter should parse");
    let setter = match im {
        NLImplementor::Setter(s) => s,
        _ => panic!("Did not get a setter."),
    };
    assert_eq!(setter.name, b"my_setter".to_vec(), "Setter did not have expected name.");
    assert_eq!(
        setter.block,
        NLEncapsulationBlock::UseDefault,
        "Setter did not state use of default implementation."
    );
    assert_eq!(setter.args.len(), 0, "Setter did not have correct arguments.");
}

#[test]
fn tests_setter_impl() {
    let (_, im) = read_setter(b"set my_setter(value: i32) {}").expect("setter should parse");
    let setter = match im {
        NLImplementor::Setter(s) => s,
        _ => panic!("Did not get a setter."),
    };
    assert_eq!(setter.name, b"my_setter".to_vec(), "Getter did not have expected name.");
    assert_ne!(
        setter.block,
        NLEncapsulationBlock::UseDefault,
        "Setter did not state use of default implementation."
    );
    assert_ne!(
        setter.block,
        NLEncapsulationBlock::NotImplemented,
        "Setter did not state use of default implementation."
    );
    assert_eq!(setter.args.len(), 1, "Setter did not have correct number of arguments.");
    assert_eq!(setter.args[0].name, b"value".to_vec(), "Variable did not have expected name.");
    assert_eq!(setter.args[0].nl_type, NLType::I32, "Variable did not have expected type.");
}

#[test]
fn tests_setter_no_impl() {
    let (_, im) = read_setter(b"set my_setter(value: i32);").expect("setter should parse");
    let setter = match im {
        NLImplementor::Setter(s) => s,
        _ => panic!("Did not get a setter."),
    };
    assert_eq!(setter.name, b"my_setter".to_vec(), "Setter did not have expected name.");
    assert_eq!(
        setter.block,
        NLEncapsulationBlock::NotImplemented,
        "Setter did not state use of no implementation."
    );
    assert_eq!(setter.args.len(), 1, "Setter did not have correct number of arguments.");
    assert_eq!(setter.args[0].name, b"value".to_vec(), "Variable did not have expected name.");
    assert_eq!(setter.args[0].nl_type, NLType::I32, "Variable did not have expected type.");
}

#[test]
fn tests_empty_file() {
    let file = parse_string(b"", b"test_file.nl").unwrap();
    assert_eq!(file.name, b"test_file.nl".to_vec(), "File name not copied correctly.");
    assert_eq!(file.structs.len(), 0, "Wrong number of structs.");
    assert_eq!(file.traits.len(), 0, "Wrong number of traits.");
    assert_eq!(file.functions.len(), 0, "Wrong number of functions.");
    assert_eq!(file.enums.len(), 0, "Wrong number of enums.");
}

#[test]
fn tests_empty_struct_and_trait() {
    let code = b"struct MyStruct {}\ntrait MyTrait {}\n";
    let file = parse_string(code, b"empty_struct_and_trait.nl").unwrap();
    assert_eq!(file.name, b"empty_struct_and_trait.nl".to_vec(), "File name not copied correctly.");
    assert_eq!(file.traits.len(), 1, "Wrong number of traits.");
    assert_eq!(file.traits[0].name, b"MyTrait".to_vec(), "Wrong name for trait.");
    assert_eq!(file.structs.len(), 1, "Wrong number of structs.");
    assert_eq!(file.structs[0].name, b"MyStruct".to_vec(), "Wrong name for struct.");
}

#[test]
fn tests_bad_root() {
    let code = b"I shouldn't be here in the root.";
    let result = parse_string(code, b"bad_root.nl");
    match result {
        Err(error) => {
            let msg = error.get_message().clone();
            let needle: &[u8] = b"I shouldn't be here in the root.";
            let found = msg.windows(needle.len()).any(|w| w == needle);
            assert!(found, "message should quote the offending input");
            let root_needle: &[u8] = b"root declaration";
            let rooted = msg.windows(root_needle.len()).any(|w| w == root_needle);
            assert!(rooted, "message should reference the root-declaration context");
        }
        Ok(_) => panic!("No error when one was expected."),
    }
}

#[test]
fn tests_single_empty_struct() {
    let file = parse_string(b"struct MyStruct {}", b"single_struct_empty.nl").unwrap();
    assert_eq!(file.name, b"single_struct_empty.nl".to_vec(), "File name not copied correctly.");
    assert_eq!(file.structs.len(), 1, "Wrong number of structs.");
    assert_eq!(file.structs[0].name, b"MyStruct".to_vec(), "Wrong name for struct.");
    assert_eq!(file.traits.len(), 0, "Wrong number of traits.");
}

#[test]
fn tests_single_variable_struct() {
    let file = parse_string(
        b"struct MyStruct { variable: i32, }",
        b"struct_with_single_variable.nl",
    )
    .unwrap();
    assert_eq!(file.structs.len(), 1, "Wrong number of structs.");
    let my_struct = &file.structs[0];
    assert_eq!(my_struct.name, b"MyStruct".to_vec(), "Wrong name for struct.");
    assert_eq!(my_struct.variables.len(), 1, "Wrong number of variables.");
    assert_eq!(my_struct.variables[0].name, b"variable".to_vec(), "Variable had wrong name.");
    assert_eq!(my_struct.variables[0].my_type, NLType::I32, "Variable had wrong type.");
}

#[test]
fn tests_single_variable_struct_no_ending_comma() {
    let file = parse_string(
        b"struct MyStruct { variable: i32 }",
        b"struct_with_single_variable_no_comma.nl",
    )
    .unwrap();
    assert_eq!(file.structs.len(), 1, "Wrong number of structs.");
    let my_struct = &file.structs[0];
    assert_eq!(my_struct.variables.len(), 1, "Wrong number of variables.");
    assert_eq!(my_struct.variables[0].name, b"variable".to_vec(), "Variable had wrong name.");
    assert_eq!(my_struct.variables[0].my_type, NLType::I32, "Variable had wrong type.");
}

#[test]
fn tests_two_variable_struct_no_ending_comma() {
    let file = parse_string(
        b"struct MyStruct { variable: i32, other_variable: i32 }",
        b"struct_with_two_variables_no_ending_comma.nl",
    )
    .unwrap();
    assert_eq!(file.structs.len(), 1, "Wrong number of structs.");
    let my_struct = &file.structs[0];
    assert_eq!(my_struct.variables.len(), 2, "Wrong number of variables.");
    assert_eq!(my_struct.variables[0].name, b"variable".to_vec(), "Variable had wrong name.");
    assert_eq!(my_struct.variables[0].my_type, NLType::I32, "Variable had wrong type.");
    assert_eq!(
        my_struct.variables[1].name,
        b"other_variable".to_vec(),
        "Variable had wrong name."
    );
    assert_eq!(my_struct.variables[1].my_type, NLType::I32, "Variable had wrong type.");
}

#[test]
fn tests_empty_struct_and_trait_single_line_comments() {
    let code = b"// A comment.\nstruct MyStruct {} // another\ntrait MyTrait {}\n// tail\n";
    let file = parse_string(code, b"empty_struct_and_trait_with_single_line_comments.nl").unwrap();
    assert_eq!(file.traits.len(), 1, "Wrong number of traits.");
    assert_eq!(file.traits[0].name, b"MyTrait".to_vec(), "Wrong name for trait.");
    assert_eq!(file.structs.len(), 1, "Wrong number of structs.");
    assert_eq!(file.structs[0].name, b"MyStruct".to_vec(), "Wrong name for struct.");
}

#[test]
fn tests_empty_struct_and_trait_multi_line_comments() {
    let code = b"/* A\ncomment. */ struct MyStruct {} /* more */ trait MyTrait {} /* tail */";
    let file = parse_string(code, b"empty_struct_and_trait_with_multi_line_comments.nl").unwrap();
    assert_eq!(file.traits.len(), 1, "Wrong number of traits.");
    assert_eq!(file.traits[0].name, b"MyTrait".to_vec(), "Wrong name for trait.");
    assert_eq!(file.structs.len(), 1, "Wrong number of structs.");
    assert_eq!(file.structs[0].name, b"MyStruct".to_vec(), "Wrong name for struct.");
}

#[test]
fn tests_struct_empty_self_implementation() {
    let code = b"struct MyStruct {} impl Self {}";
    let file = parse_string(code, b"struct_with_empty_self_implementation.nl").unwrap();
    assert_eq!(file.structs.len(), 1, "Wrong number of structs.");
    let my_struct = &file.structs[0];
    assert_eq!(my_struct.implementations.len(), 1, "Wrong number of implementations.");
    assert_eq!(
        my_struct.implementations[0].name,
        b"Self".to_vec(),
        "Implementation had wrong name."
    );
}

#[test]
fn tests_struct_self_implementation_with_methods() {
    let code = b"struct MyStruct {} impl Self {\n met a();\n met b() {}\n met c() -> i32;\n met d() -> i32 {}\n}";
    let file = parse_string(code, b"struct_self_implementation_with_methods.nl").unwrap();
    assert_eq!(file.structs.len(), 1, "Wrong number of structs.");
    let my_struct = &file.structs[0];
    assert_eq!(my_struct.implementations.len(), 1, "Wrong number of implementations.");
    let implementation = &my_struct.implementations[0];
    assert_eq!(implementation.name, b"Self".to_vec(), "Implementation had wrong name.");
    assert_eq!(implementation.implementors.len(), 4, "Wrong number of methods.");
}

#[test]
fn tests_trait_with_methods_and_encapsulators() {
    let code = b"trait MyTrait {\n met a();\n met b() {}\n met c() -> i32;\n met d() -> i32 {}\n get e:default;\n get f(&self) -> i32;\n get g(&self) -> i32 {}\n set h:default;\n set i(v: i32);\n set j(v: i32) {}\n}";
    let file = parse_string(code, b"trait_with_methods_and_encapsulators.nl").unwrap();
    assert_eq!(file.traits.len(), 1, "Wrong number of traits.");
    let my_trait = &file.traits[0];
    assert_eq!(my_trait.name, b"MyTrait".to_vec(), "Implementation had wrong name.");
    assert_eq!(my_trait.implementors.len(), 10, "Wrong number of methods.");
}

#[test]
fn tests_single_empty_trait() {
    let file = parse_string(b"trait MyTrait {}", b"single_trait_empty.nl").unwrap();
    assert_eq!(file.name, b"single_trait_empty.nl".to_vec(), "File name not copied correctly.");
    assert_eq!(file.traits.len(), 1, "Wrong number of traits.");
    assert_eq!(file.traits[0].name, b"MyTrait".to_vec(), "Wrong name for trait.");
    assert_eq!(file.structs.len(), 0, "Wrong number of structs.");
}

#[test]
fn tests_all_global_function_types() {
    let code = b"fn my_function();\nfn my_function() {}\nfn my_function() -> i32;\nfn my_function() -> i32 {}\n";
    let file = parse_string(code, b"global_functions.nl").unwrap();
    assert_eq!(file.functions.len(), 4, "Wrong number of functions.");
    let f = &file.functions[0];
    assert_eq!(f.get_name(), &b"my_function".to_vec(), "Wrong name for function.");
    assert_eq!(f.arguments.len(), 0, "Wrong number of arguments.");
    assert_eq!(f.return_type, NLType::Unit, "Wrong return type.");
    assert!(f.block.is_none(), "Function should not have been implemented.");
    let f = &file.functions[1];
    assert_eq!(f.return_type, NLType::Unit, "Wrong return type.");
    assert!(f.block.is_some(), "Function should have been implemented.");
    let f = &file.functions[2];
    assert_eq!(f.return_type, NLType::I32, "Wrong return type.");
    assert!(f.block.is_none(), "Function should not have been implemented.");
    let f = &file.functions[3];
    assert_eq!(f.return_type, NLType::I32, "Wrong return type.");
    assert!(f.block.is_some(), "Function should have been implemented.");
    assert_eq!(file.traits.len(), 0, "Wrong number of traits.");
    assert_eq!(file.structs.len(), 0, "Wrong number of structs.");
}

#[test]
fn tests_enum_empty() {
    let file = parse_string(b"enum MyVariant {}", b"virtual_file").unwrap();
    let enums = file.get_enums();
    assert_eq!(enums.len(), 1);
    assert_eq!(enums[0].get_name(), &b"MyVariant".to_vec());
    assert_eq!(enums[0].get_variants().len(), 0);
}

#[test]
fn tests_one_variant() {
    let file = parse_string(b"enum MyVariant { One }", b"virtual_file").unwrap();
    let enums = file.get_enums();
    assert_eq!(enums.len(), 1);
    assert_eq!(enums[0].get_name(), &b"MyVariant".to_vec());
    let variants = enums[0].get_variants();
    assert_eq!(variants.len(), 1);
    assert_eq!(variants[0].name, b"One".to_vec());
    assert_eq!(variants[0].get_arguments().len(), 0);
}

#[test]
fn tests_two_variant() {
    let file = parse_string(b"enum MyVariant { One, Two }", b"virtual_file").unwrap();
    let variants = file.enums[0].get_variants().len();
    assert_eq!(variants, 2);
    assert_eq!(file.enums[0].variants[0].name, b"One".to_vec());
    assert_eq!(file.enums[0].variants[1].name, b"Two".to_vec());
}

#[test]
fn tests_one_variant_lazy_comma() {
    let file = parse_string(b"enum MyVariant { One, Two, }", b"virtual_file").unwrap();
    let variants = file.enums[0].get_variants();
    assert_eq!(variants.len(), 2);
    assert_eq!(variants[0].name, b"One".to_vec());
    assert_eq!(variants[1].name, b"Two".to_vec());
}

#[test]
fn tests_one_variant_single_container() {
    let file = parse_string(b"enum MyVariant { One(a: A), }", b"virtual_file").unwrap();
    let variants = file.enums[0].get_variants();
    assert_eq!(variants.len(), 1);
    assert_eq!(variants[0].name, b"One".to_vec());
    let arguments = variants[0].get_arguments();
    assert_eq!(arguments.len(), 1);
    assert_eq!(arguments[0].get_name(), &b"a".to_vec());
    assert_eq!(arguments[0].get_type(), &NLType::OwnedStruct(b"A".to_vec()));
}

#[test]
fn tests_two_variant_double_container() {
    let file = parse_string(b"enum MyVariant { One(a: A, b: B), Two(c: C, d: D), }", b"virtual_file")
        .unwrap();
    let variants = file.enums[0].get_variants();
    assert_eq!(variants.len(), 2);
    assert_eq!(variants[0].name, b"One".to_vec());
    let arguments = variants[0].get_arguments();
    assert_eq!(arguments.len(), 2);
    assert_eq!(arguments[0].get_name(), &b"a".to_vec());
    assert_eq!(arguments[0].get_type(), &NLType::OwnedStruct(b"A".to_vec()));
    assert_eq!(arguments[1].get_name(), &b"b".to_vec());
    assert_eq!(arguments[1].get_type(), &NLType::OwnedStruct(b"B".to_vec()));
    let variants2 = &file.enums[0].variants[1];
    assert_eq!(variants2.name, b"Two".to_vec());
    assert_eq!(variants2.arguments[0].name, b"c".to_vec());
    assert_eq!(variants2.arguments[1].name, b"d".to_vec());
}

#[test]
fn tests_mixed_declarations_accumulate_in_order() {
    let code = b"fn a(); struct B {} enum C {} trait D {} fn e() {} struct F {}";
    let file = parse_string(code, b"mixed.nl").unwrap();
    assert_eq!(file.functions.len(), 2, "Wrong number of functions.");
    assert_eq!(file.structs.len(), 2, "Wrong number of structs.");
    assert_eq!(file.traits.len(), 1, "Wrong number of traits.");
    assert_eq!(file.enums.len(), 1, "Wrong number of enums.");
    assert_eq!(file.functions[0].name, b"a".to_vec());
    assert_eq!(file.functions[1].name, b"e".to_vec());
    assert_eq!(file.structs[0].name, b"B".to_vec());
    assert_eq!(file.structs[1].name, b"F".to_vec());
    assert_eq!(file.traits[0].name, b"D".to_vec());
    assert_eq!(file.enums[0].name, b"C".to_vec());
}

#[test]
fn tests_trailing_garbage_is_fatal() {
    let result = parse_string(b"struct A {} qqq", b"virtual_file");
    assert!(result.is_err(), "trailing garbage at root must be rejected");
}
