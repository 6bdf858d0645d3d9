use huff_codegen::artifact::{assemble_artifact, FileSource};
use huff_codegen::ast::{
    Argument, ConstVal, ConstantDefinition, Contract, FunctionDeclaration, MacroArg,
    MacroDefinition, MacroInvocation, Statement,
};
use huff_codegen::codegen::Codegen;
use huff_codegen::error::CodegenErrorKind;
use huff_codegen::expand::MAX_MACRO_DEPTH;
use huff_codegen::opcodes::opcode_byte;
use huff_codegen::push::push_literal;

fn lit(v: u64) -> [u8; 32] {
    let mut l = [0u8; 32];
    l[24..].copy_from_slice(&v.to_be_bytes());
    l
}

fn op(name: &str) -> Statement {
    Statement::Opcode(opcode_byte(name).unwrap())
}

fn push(v: u64) -> Statement {
    Statement::Literal(lit(v))
}

fn label(name: &str) -> Statement {
    Statement::Label(name.to_string())
}

fn jump_to(name: &str) -> Statement {
    Statement::LabelCall(name.to_string())
}

fn invoke(name: &str, args: Vec<MacroArg>) -> Statement {
    Statement::MacroInvocation(MacroInvocation { macro_name: name.to_string(), args })
}

fn mac(name: &str, params: &[&str], statements: Vec<Statement>) -> MacroDefinition {
    MacroDefinition {
        name: name.to_string(),
        parameters: params.iter().map(|p| Argument { name: Some(p.to_string()) }).collect(),
        statements,
    }
}

fn contract(macros: Vec<MacroDefinition>, constants: Vec<ConstantDefinition>) -> Contract {
    Contract { macros, constants, functions: vec![] }
}

fn main_hex(c: &Contract) -> String {
    Codegen::roll(Some(c)).unwrap()
}

fn main_err(c: &Contract) -> CodegenErrorKind {
    match Codegen::roll(Some(c)) {
        Ok(s) => panic!("expected an error, got {}", s),
        Err(e) => e.kind,
    }
}

/// The body of a function that computes `x * y / denominator`, entered by a
/// jump to `entry` with the return address under the three arguments.
fn mul_div_down(entry: &str) -> MacroDefinition {
    mac(
        "MUL_DIV_DOWN",
        &[],
        vec![
            label(entry),
            op("dup3"),
            op("dup3"),
            op("dup3"),
            op("mul"),
            push(0),
            op("mstore"),
            op("iszero"),
            op("iszero"),
            op("swap1"),
            op("dup1"),
            op("iszero"),
            op("swap1"),
            push(0),
            op("mload"),
            op("div"),
            op("dup4"),
            op("eq"),
            op("or"),
            op("and"),
            op("iszero"),
            jump_to("fail"),
            op("jumpi"),
            op("pop"),
            push(0),
            op("mload"),
            op("div"),
            push(1),
            jump_to("finish"),
            op("jumpi"),
            label("fail"),
            push(0),
            push(0),
            op("revert"),
            label("finish"),
            op("swap1"),
            op("jump"),
        ],
    )
}

/// Loads three arguments, calls the function at `callee` and returns its result.
fn test_body(name: &str, callee: &str) -> MacroDefinition {
    mac(
        name,
        &[],
        vec![
            push(0x44),
            op("calldataload"),
            push(0x24),
            op("calldataload"),
            push(0x04),
            op("calldataload"),
            jump_to("ret"),
            op("swap3"),
            op("swap2"),
            op("swap1"),
            jump_to(callee),
            op("jump"),
            label("ret"),
            push(0),
            op("mstore"),
            push(0x20),
            push(0),
            op("return"),
        ],
    )
}

fn dispatch(selector: &[u8], target: &str) -> Vec<Statement> {
    let mut code = vec![0x63u8];
    code.extend_from_slice(selector);
    vec![op("dup1"), Statement::Code(code), op("eq"), jump_to(target), op("jumpi")]
}

#[test]
fn test_function() {
    let mut main = vec![push(0), op("calldataload"), push(0xe0), op("shr")];
    main.extend(dispatch(&[0x07, 0x59, 0x00, 0x20], "test_one"));
    main.extend(dispatch(&[0x19, 0x71, 0x5c, 0x0d], "test_two"));
    main.extend(dispatch(&[0x27, 0x90, 0x2d, 0x69], "test_three"));
    main.extend(vec![
        label("test_one"),
        invoke("TEST", vec![]),
        label("test_two"),
        invoke("TEST", vec![]),
        label("test_three"),
        invoke("TEST", vec![]),
        invoke("MUL_DIV_DOWN", vec![]),
    ]);
    let c = contract(
        vec![test_body("TEST", "mul_div_down"), mul_div_down("mul_div_down"), mac("MAIN", &[], main)],
        vec![],
    );
    let expected = "60ad8060093d393df360003560e01c8063075900201461002757806319715c0d1461004457806327902d6914610061575b60443560243560043561003b92919061007e565b60005260206000f35b60443560243560043561005892919061007e565b60005260206000f35b60443560243560043561007592919061007e565b60005260206000f35b828282026000521515908015906000510483141716156100a457506000510460016100aa575b60006000fd5b9056";
    let rbytes = main_hex(&c);
    assert!(Codegen::new().artifact.is_none());
    assert_eq!(rbytes, &expected[18..]);
    let mut cg = Codegen::new();
    cg.churn(FileSource::new(), &vec![], &rbytes, "").ok().unwrap();
    let artifact = cg.artifact.as_ref().unwrap();
    assert_eq!(artifact.bytecode, format!("6100ad8061000d6000396000f3{}", &expected[18..]));
}

#[test]
fn test_nested_function() {
    let mut main = vec![push(0), op("calldataload"), push(0xe0), op("shr")];
    main.extend(dispatch(&[0x07, 0x59, 0x00, 0x20], "test_one"));
    main.extend(vec![
        label("test_one"),
        invoke("TEST_1", vec![]),
        invoke("MUL_DIV_DOWN", vec![]),
        invoke("MUL_DIV_DOWN_2", vec![]),
    ]);
    let mdd2 = mac(
        "MUL_DIV_DOWN_2",
        &[],
        vec![
            label("mul_div_down_2"),
            jump_to("ret2"),
            op("swap3"),
            op("swap2"),
            op("swap1"),
            jump_to("mul_div_down"),
            op("jump"),
            label("ret2"),
            op("swap1"),
            op("jump"),
        ],
    );
    let c = contract(
        vec![test_body("TEST_1", "mul_div_down_2"), mul_div_down("mul_div_down"), mdd2, mac("MAIN", &[], main)],
        vec![],
    );
    let expected = "606b8060093d393df360003560e01c80630759002014610011575b60443560243560043561002592919061005d565b60005260206000f35b82828202600052151590801590600051048314171615610054575060005104600161005a575b60006000fd5b90565b61006892919061002e565b9056";
    let rbytes = main_hex(&c);
    assert_eq!(rbytes, &expected[18..]);
    let mut cg = Codegen::new();
    cg.churn(FileSource::new(), &vec![], &rbytes, "").ok().unwrap();
    let artifact = cg.artifact.as_ref().unwrap();
    assert_eq!(artifact.bytecode, format!("61006b8061000d6000396000f3{}", &expected[18..]));
}

#[test]
fn empty_main_is_empty() {
    let c = contract(vec![mac("MAIN", &[], vec![])], vec![]);
    assert_eq!(main_hex(&c), "");
}

#[test]
fn lone_label_emits_jumpdest() {
    let c = contract(vec![mac("MAIN", &[], vec![label("here")])], vec![]);
    assert_eq!(main_hex(&c), "5b");
    let mut scope = vec![0usize];
    let mut calls: Vec<usize> = vec![];
    let res = Codegen::recurse_bytecode(&c, &mut scope, &mut calls, 0, MAX_MACRO_DEPTH).ok().unwrap();
    assert_eq!(res.bytes, vec![0x5b]);
    assert_eq!(res.jump_indices.len(), 1);
    assert_eq!(res.jump_indices[0].label, "here");
    assert_eq!(res.jump_indices[0].offset, 0);
    assert!(res.unmatched_jumps.is_empty());
}

#[test]
fn forward_jump_resolves_in_frame() {
    let c = contract(vec![mac("MAIN", &[], vec![jump_to("end"), op("jump"), label("end")])], vec![]);
    assert_eq!(main_hex(&c), "610004565b");
}

#[test]
fn backward_jump_resolves_in_frame() {
    let c = contract(vec![mac("MAIN", &[], vec![label("top"), jump_to("top"), op("jump")])], vec![]);
    assert_eq!(main_hex(&c), "5b61000056");
}

#[test]
fn jump_to_enclosing_label_is_patched_there() {
    let inner = mac("INNER", &[], vec![jump_to("end"), op("jump")]);
    let main = mac("MAIN", &[], vec![push(1), invoke("INNER", vec![]), label("end")]);
    let c = contract(vec![inner, main], vec![]);
    let mut calls: Vec<usize> = vec![];
    let res = Codegen::recurse_bytecode(&c, &mut vec![0usize], &mut calls, 2, MAX_MACRO_DEPTH).ok().unwrap();
    assert_eq!(res.bytes, vec![0x61, 0, 0, 0x56]);
    assert_eq!(res.unmatched_jumps.len(), 1);
    assert_eq!(res.unmatched_jumps[0].label, "end");
    assert_eq!(res.unmatched_jumps[0].bytecode_index, 0);
    assert_eq!(main_hex(&c), "6001610006565b");
}

#[test]
fn trivial_main() {
    let c = contract(vec![mac("MAIN", &[], vec![op("stop")])], vec![]);
    assert_eq!(main_hex(&c), "00");
}

#[test]
fn push_and_jump() {
    let body = vec![push(1), jump_to("end"), op("jumpi"), label("end"), op("stop")];
    let c = contract(vec![mac("MAIN", &[], body)], vec![]);
    assert_eq!(main_hex(&c), "6001610006575b00");
}

#[test]
fn missing_constant() {
    let c = contract(vec![mac("MAIN", &[], vec![Statement::Constant("NONEXISTENT".to_string())])], vec![]);
    assert_eq!(main_err(&c), CodegenErrorKind::MissingConstantDefinition);
}

#[test]
fn unassigned_storage_pointer() {
    let k = ConstantDefinition { name: "SLOT".to_string(), value: ConstVal::FreeStoragePointer };
    let c = contract(vec![mac("MAIN", &[], vec![Statement::Constant("SLOT".to_string())])], vec![k]);
    assert_eq!(main_err(&c), CodegenErrorKind::StoragePointersNotDerived);
}

#[test]
fn constant_is_pushed_narrowly() {
    let k = ConstantDefinition { name: "K".to_string(), value: ConstVal::Literal(lit(0x0100)) };
    let c = contract(vec![mac("MAIN", &[], vec![Statement::Constant("K".to_string())])], vec![k]);
    assert_eq!(main_hex(&c), "610100");
}

#[test]
fn literal_push_widths() {
    assert_eq!(push_literal(&lit(0)), vec![0x60, 0x00]);
    assert_eq!(push_literal(&lit(0xff)), vec![0x60, 0xff]);
    assert_eq!(push_literal(&lit(0x100)), vec![0x61, 0x01, 0x00]);
    assert_eq!(push_literal(&lit(0x0100_0000)), vec![0x63, 0x01, 0x00, 0x00, 0x00]);
    let mut full = [0xabu8; 32];
    full[0] = 0x01;
    let p = push_literal(&full);
    assert_eq!(p[0], 0x7f);
    assert_eq!(p.len(), 33);
}

#[test]
fn opcode_table_ignores_case() {
    assert_eq!(opcode_byte("jumpdest"), Some(0x5b));
    assert_eq!(opcode_byte("JUMPDEST"), Some(0x5b));
    assert_eq!(opcode_byte("CallDataLoad"), Some(0x35));
    assert_eq!(opcode_byte("push32"), Some(0x7f));
    assert_eq!(opcode_byte("swap16"), Some(0x9f));
    assert_eq!(opcode_byte("selfdestruct"), Some(0xff));
    assert_eq!(opcode_byte("nothing"), None);
    assert_eq!(opcode_byte(""), None);
}

#[test]
fn literal_argument_is_pushed() {
    let inner = mac("INNER", &["x"], vec![Statement::ArgCall("x".to_string())]);
    let main = mac("MAIN", &[], vec![invoke("INNER", vec![MacroArg::Literal(lit(0x42))])]);
    let c = contract(vec![inner, main], vec![]);
    assert_eq!(main_hex(&c), "6042");
}

#[test]
fn argument_bubbles_through_nested_macros() {
    let inner = mac("INNER", &["a"], vec![Statement::ArgCall("a".to_string())]);
    let middle = mac("MIDDLE", &["b"], vec![invoke("INNER", vec![MacroArg::ArgCall("b".to_string())])]);
    let outer = mac("OUTER", &["c"], vec![invoke("MIDDLE", vec![MacroArg::ArgCall("c".to_string())])]);
    let main = mac("MAIN", &[], vec![invoke("OUTER", vec![MacroArg::Literal(lit(0x1234))])]);
    let direct = mac("DIRECT", &[], vec![invoke("INNER", vec![MacroArg::Literal(lit(0x1234))])]);
    let c = contract(vec![inner, middle, outer, main], vec![]);
    let d = contract(vec![mac("INNER", &["a"], vec![Statement::ArgCall("a".to_string())]), mac("MAIN", &[], vec![invoke("DIRECT", vec![])]), direct], vec![]);
    assert_eq!(main_hex(&c), "611234");
    assert_eq!(main_hex(&c), main_hex(&d));
}

#[test]
fn opcode_argument_is_emitted() {
    let inner = mac("INNER", &[], vec![Statement::ArgCall("caller".to_string())]);
    let main = mac("MAIN", &[], vec![invoke("INNER", vec![])]);
    let c = contract(vec![inner, main], vec![]);
    assert_eq!(main_hex(&c), "33");
}

#[test]
fn constant_shadows_parameter() {
    let k = ConstantDefinition { name: "x".to_string(), value: ConstVal::Literal(lit(7)) };
    let inner = mac("INNER", &["x"], vec![Statement::ArgCall("x".to_string())]);
    let main = mac("MAIN", &[], vec![invoke("INNER", vec![MacroArg::Literal(lit(9))])]);
    let c = contract(vec![inner, main], vec![k]);
    assert_eq!(main_hex(&c), "6007");
}

#[test]
fn ident_argument_jumps_to_label() {
    let inner = mac("INNER", &["dest"], vec![Statement::ArgCall("dest".to_string()), op("jump")]);
    let main = mac("MAIN", &[], vec![invoke("INNER", vec![MacroArg::Ident("here".to_string())]), label("here")]);
    let c = contract(vec![inner, main], vec![]);
    assert_eq!(main_hex(&c), "610004565b");
}

#[test]
fn unbound_argument_falls_through_to_label() {
    let main = mac("MAIN", &[], vec![Statement::ArgCall("there".to_string()), op("jump"), label("there")]);
    let c = contract(vec![main], vec![]);
    assert_eq!(main_hex(&c), "610004565b");
    let r = Codegen::bubble_arg_call(&"there".to_string(), &c, &vec![0], &vec![], 0).ok().unwrap();
    assert_eq!(r.0, vec![0x61, 0, 0]);
    assert_eq!(r.1, Some("there".to_string()));
}

#[test]
fn missing_main() {
    let c = contract(vec![mac("OTHER", &[], vec![])], vec![]);
    assert_eq!(main_err(&c), CodegenErrorKind::MissingMacroDefinition("MAIN".to_string()));
}

#[test]
fn missing_constructor() {
    let c = contract(vec![mac("MAIN", &[], vec![])], vec![]);
    let e = Codegen::construct(Some(&c)).err().unwrap();
    assert_eq!(e.kind, CodegenErrorKind::MissingConstructor);
}

#[test]
fn constructor_is_generated() {
    let c = contract(vec![mac("CONSTRUCTOR", &[], vec![push(0), push(0), op("sstore")])], vec![]);
    assert_eq!(Codegen::construct(Some(&c)).unwrap(), "6000600055");
}

#[test]
fn missing_ast() {
    assert_eq!(Codegen::roll(None).err().unwrap().kind, CodegenErrorKind::MissingAst);
    assert_eq!(Codegen::construct(None).err().unwrap().kind, CodegenErrorKind::MissingAst);
    let cg = Codegen::new();
    assert_eq!(cg.graceful_ast_grab(None).err().unwrap().kind, CodegenErrorKind::MissingAst);
}

#[test]
fn graceful_ast_grab_prefers_argument() {
    let mut cg = Codegen::new();
    cg.ast = Some(contract(vec![mac("STORED", &[], vec![])], vec![]));
    let given = contract(vec![mac("GIVEN", &[], vec![])], vec![]);
    assert_eq!(cg.graceful_ast_grab(Some(&given)).ok().unwrap().macros[0].name, "GIVEN");
    assert_eq!(cg.graceful_ast_grab(None).ok().unwrap().macros[0].name, "STORED");
}

#[test]
fn invoking_undefined_macro_fails() {
    let c = contract(vec![mac("MAIN", &[], vec![invoke("NOPE", vec![])])], vec![]);
    assert_eq!(main_err(&c), CodegenErrorKind::MissingMacroDefinition("NOPE".to_string()));
}

#[test]
fn failing_inner_macro_is_reported_at_caller() {
    let inner = mac("INNER", &[], vec![Statement::Constant("NONE".to_string())]);
    let c = contract(vec![inner, mac("MAIN", &[], vec![invoke("INNER", vec![])])], vec![]);
    assert_eq!(
        main_err(&c),
        CodegenErrorKind::FailedMacroRecursion(Box::new(CodegenErrorKind::MissingConstantDefinition))
    );
}

#[test]
fn builtin_is_invalid_statement() {
    let c = contract(vec![mac("MAIN", &[], vec![Statement::BuiltinFunctionCall("__codesize".to_string())])], vec![]);
    assert_eq!(main_err(&c), CodegenErrorKind::InvalidMacroStatement);
}

#[test]
fn unresolved_label_fails() {
    let c = contract(vec![mac("MAIN", &[], vec![jump_to("nowhere"), op("jump")])], vec![]);
    assert_eq!(main_err(&c), CodegenErrorKind::UnmatchedJumpLabel);
}

#[test]
fn self_invocation_hits_depth_limit() {
    let c = contract(vec![mac("LOOP", &[], vec![invoke("LOOP", vec![])])], vec![]);
    let mut calls: Vec<usize> = vec![];
    let e = Codegen::recurse_bytecode(&c, &mut vec![0usize], &mut calls, 0, 0).err().unwrap();
    assert_eq!(e.kind, CodegenErrorKind::RecursionLimit);
    let c = contract(vec![mac("MAIN", &[], vec![invoke("MAIN", vec![])])], vec![]);
    let mut kind = main_err(&c);
    let mut levels = 0usize;
    while let CodegenErrorKind::FailedMacroRecursion(inner) = kind {
        kind = *inner;
        levels += 1;
    }
    assert_eq!(kind, CodegenErrorKind::RecursionLimit);
    assert_eq!(levels, MAX_MACRO_DEPTH);
}

#[test]
fn oversized_code_fails() {
    let c = contract(vec![mac("MAIN", &[], vec![Statement::Code(vec![0u8; 0x10000])])], vec![]);
    assert_eq!(main_err(&c), CodegenErrorKind::BytecodeTooLarge);
    let c = contract(vec![mac("MAIN", &[], vec![Statement::Code(vec![0u8; 0xffff])])], vec![]);
    assert_eq!(main_hex(&c).len(), 2 * 0xffff);
}

#[test]
fn generation_is_deterministic() {
    let body = vec![push(1), jump_to("end"), op("jumpi"), label("end"), op("stop")];
    let c = contract(vec![mac("MAIN", &[], body)], vec![]);
    let first = main_hex(&c);
    let second = main_hex(&c);
    assert_eq!(first, second);
    assert_eq!(first.len() % 2, 0);
}

#[test]
fn artifact_is_composed() {
    let a = assemble_artifact(FileSource::new(), &vec![vec![0xABu8, 0x01]], "6001", "6002").ok().unwrap();
    assert_eq!(a.bytecode, "60026100028061000f6000396000f36001ab01");
    assert_eq!(a.runtime, "6001");
}

#[test]
fn artifact_is_lower_case() {
    let a = assemble_artifact(FileSource::new(), &vec![], "5B00", "").ok().unwrap();
    assert_eq!(a.bytecode, "6100028061000d6000396000f35b00");
    assert_eq!(a.runtime, "5b00");
}

#[test]
fn artifact_of_too_large_code_fails() {
    let big = "00".repeat(0x10000);
    let e = assemble_artifact(FileSource::new(), &vec![], &big, "").err().unwrap();
    assert_eq!(e.kind, CodegenErrorKind::BytecodeTooLarge);
}

#[test]
fn churn_encodes_arguments() {
    let mut cg = Codegen::new();
    let args = vec![ethers::abi::Token::Uint(ethers::types::U256::from(1u64))];
    cg.churn(FileSource::new(), &args, "00", "").ok().unwrap();
    let a = cg.artifact.as_ref().unwrap();
    let word = format!("{:064x}", 1);
    assert_eq!(a.bytecode, format!("6100018061000d6000396000f300{}", word));
    assert_eq!(a.runtime, "00");
}

#[test]
fn abi_lists_functions() {
    let mut c = contract(vec![], vec![]);
    c.functions.push(FunctionDeclaration {
        name: "test1".to_string(),
        inputs: vec!["uint256".to_string(), "uint256".to_string()],
        outputs: vec!["uint256".to_string()],
        state_mutability: "pure".to_string(),
    });
    let mut cg = Codegen::new();
    let returned = cg.abi_gen(&c);
    assert_eq!(returned.functions.len(), 1);
    assert_eq!(returned.functions[0].name, "test1");
    let art = cg.artifact.as_ref().unwrap();
    assert_eq!(art.bytecode, "");
    assert_eq!(art.runtime, "");
    let abi = art.abi.as_ref().unwrap();
    assert_eq!(abi.functions[0].name, "test1");
    assert_eq!(abi.functions[0].inputs.len(), 2);
    assert_eq!(abi.functions[0].state_mutability, "pure");
}


#[test]
fn abi_and_code_are_kept_together() {
    let mut c = contract(vec![], vec![]);
    c.functions.push(FunctionDeclaration {
        name: "f".to_string(),
        inputs: vec![],
        outputs: vec![],
        state_mutability: "view".to_string(),
    });
    let mut cg = Codegen::new();
    cg.churn(FileSource::new(), &vec![], "00", "").ok().unwrap();
    cg.abi_gen(&c);
    let art = cg.artifact.as_ref().unwrap();
    assert_eq!(art.runtime, "00");
    assert_eq!(art.bytecode, "6100018061000d6000396000f300");
    assert_eq!(art.abi.as_ref().unwrap().functions[0].name, "f");
    cg.churn(FileSource::new(), &vec![], "01", "").ok().unwrap();
    let art = cg.artifact.as_ref().unwrap();
    assert_eq!(art.runtime, "01");
    assert_eq!(art.abi.as_ref().unwrap().functions[0].name, "f");
}
