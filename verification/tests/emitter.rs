use tinycomp::asm_macro::{exit, load_int, print_str, store_int};
use tinycomp::assembler::Assembler;
use tinycomp::constdata::ConstData;
use tinycomp::generator::{build_asm, is_function_builtin, walk_ast};
use tinycomp::tree::{ASTNodeKind, Node};

fn exit_bytes() -> Vec<u8> {
    let mut expected = vec![0x48, 0xb8, 60, 0, 0, 0, 0, 0, 0, 0];
    expected.extend_from_slice(&[0x48, 0xbf, 0, 0, 0, 0, 0, 0, 0, 0]);
    expected.extend_from_slice(&[0x0f, 0x05]);
    expected
}

fn leaf(kind: ASTNodeKind, val: &str) -> Node {
    Node { kind, val: Some(val.to_string()), left: None, right: None }
}

fn assignment_node(var: &str, value: &str) -> Node {
    Node {
        kind: ASTNodeKind::Assignment,
        val: None,
        left: Some(Box::new(leaf(ASTNodeKind::Variable, var))),
        right: Some(Box::new(leaf(ASTNodeKind::Integer, value))),
    }
}

fn call_node(name: &str, arg: &str) -> Node {
    Node {
        kind: ASTNodeKind::FunctionCall,
        val: Some(name.to_string()),
        left: None,
        right: Some(Box::new(leaf(ASTNodeKind::Integer, arg))),
    }
}

#[test]
fn exit_macro_emits_22_bytes() {
    let mut out = Vec::new();
    assert_eq!(exit(&mut out), 22);
    assert_eq!(out, exit_bytes());
}

#[test]
fn print_str_macro_emits_32_bytes() {
    let mut out = Vec::new();
    assert_eq!(print_str(&mut out, 0x8000b0, 2), 32);
    let mut expected = vec![0xb8, 1, 0, 0, 0];
    expected.extend_from_slice(&[0xbf, 1, 0, 0, 0]);
    expected.extend_from_slice(&[0x48, 0xbe, 0xb0, 0x00, 0x80, 0, 0, 0, 0, 0]);
    expected.extend_from_slice(&[0x48, 0xba, 2, 0, 0, 0, 0, 0, 0, 0]);
    expected.extend_from_slice(&[0x0f, 0x05]);
    assert_eq!(out, expected);
}

#[test]
fn store_and_load_macros() {
    let mut out = Vec::new();
    assert_eq!(store_int(&mut out, 0x8000b2, 42), 20);
    let mut expected = vec![0x48, 0xb8, 42, 0, 0, 0, 0, 0, 0, 0];
    expected.extend_from_slice(&[0x48, 0xa3, 0xb2, 0x00, 0x80, 0, 0, 0, 0, 0]);
    assert_eq!(out, expected);
    let mut out2 = Vec::new();
    assert_eq!(load_int(&mut out2, 0x8000b2), 10);
    assert_eq!(out2, vec![0x48, 0xa1, 0xb2, 0x00, 0x80, 0, 0, 0, 0, 0]);
}

#[test]
fn only_print_is_a_builtin() {
    assert!(is_function_builtin("print"));
    assert!(!is_function_builtin("println"));
    assert!(!is_function_builtin(""));
}

#[test]
fn empty_statement_list_yields_exactly_the_exit_sequence() {
    let cd = ConstData::new();
    let emitter = build_asm(Vec::new(), &cd);
    assert_eq!(emitter.get_length(), 22);
    assert_eq!(*emitter.get_output(), exit_bytes());
}

#[test]
fn assignment_of_42_yields_store_then_exit_totalling_42_bytes() {
    let mut cd = ConstData::new();
    cd.insert("42");
    let stmt = assignment_node("x", "42");
    let emitter = build_asm(vec![stmt], &cd);
    assert_eq!(emitter.get_length(), 42);
    // store rax at the end of the data section (base 0x8000b0 + 2 bytes)
    let mut expected = vec![0x48, 0xb8, 42, 0, 0, 0, 0, 0, 0, 0];
    expected.extend_from_slice(&[0x48, 0xa3, 0xb2, 0x00, 0x80, 0, 0, 0, 0, 0]);
    expected.extend(exit_bytes());
    assert_eq!(*emitter.get_output(), expected);
}

#[test]
fn print_call_points_at_the_pool_placement_of_its_literal() {
    let mut cd = ConstData::new();
    cd.insert("before");
    let (offset, length) = cd.insert("97");
    let stmt = call_node("print", "97");
    let emitter = build_asm(vec![stmt], &cd);
    let out = emitter.get_output();
    // the rsi immediate is the literal's absolute address, the rdx
    // immediate its length, exactly as the pool recorded them
    let addr = cd.get_const_address("97");
    assert_eq!(addr, 0x8000b0 + offset);
    let mut imm = [0u8; 8];
    imm.copy_from_slice(&out[12..20]);
    assert_eq!(u64::from_le_bytes(imm), addr);
    imm.copy_from_slice(&out[22..30]);
    assert_eq!(u64::from_le_bytes(imm), length);
    assert_eq!(emitter.get_length(), 32 + 22);
}

#[test]
fn unrecognized_builtin_emits_nothing() {
    let mut cd = ConstData::new();
    cd.insert("5");
    let stmt = call_node("plot", "5");
    let emitter = build_asm(vec![stmt], &cd);
    assert_eq!(*emitter.get_output(), exit_bytes());
}

#[test]
fn walk_ast_appends_one_statement() {
    let mut cd = ConstData::new();
    cd.insert("7");
    let mut emitter = Assembler { output: Vec::new(), length: 0, const_data: &cd };
    walk_ast(assignment_node("y", "7"), &mut emitter);
    assert_eq!(emitter.get_length(), 20);
    assert_eq!(emitter.get_output().len(), 20);
}

#[test]
fn assembler_macros_accumulate_length() {
    let cd = ConstData::new();
    let mut emitter = Assembler { output: Vec::new(), length: 0, const_data: &cd };
    emitter.print_str(0x8000b0, 4);
    emitter.exit();
    assert_eq!(emitter.get_length(), 54);
    assert_eq!(emitter.get_output().len(), 54);
}

#[test]
fn builtin_function_dispatches_on_the_name() {
    let mut cd = ConstData::new();
    cd.insert("11");
    let mut emitter = Assembler { output: Vec::new(), length: 0, const_data: &cd };
    emitter.builtin_function("nope", "11");
    assert_eq!(emitter.get_length(), 0);
    emitter.builtin_function("print", "11");
    assert_eq!(emitter.get_length(), 32);
}

#[test]
fn assignment_statement_stores_at_the_end_of_section() {
    let mut cd = ConstData::new();
    cd.insert("3");
    let mut emitter = Assembler { output: Vec::new(), length: 0, const_data: &cd };
    emitter.assignment_statement("z", 3);
    let out = emitter.get_output();
    assert_eq!(out.len(), 20);
    let mut addr = [0u8; 8];
    addr.copy_from_slice(&out[12..20]);
    assert_eq!(u64::from_le_bytes(addr), 0x8000b0 + 1);
}
