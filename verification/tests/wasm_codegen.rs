use wasmrust::cranelift::WasmRustCraneliftBackend;
use wasmrust::backend::{BackendError, Target};
use wasmrust::fold::{evaluate_binary_op, exact_log2, fold_constants, optimize_instruction};
use wasmrust::layout::StreamingLayoutOptimizer;
use wasmrust::leb128::encode_u32;
use wasmrust::optimize::{eliminate_dead_code, WasmOptimizer};
use wasmrust::wasm_codegen::WasmCodegen;
use wasmrust::wasmir::{
    BasicBlock, BinaryOp, BlockId, Capability, Constant, Instruction, Operand, OwnershipAnnotation,
    OwnershipState, Signature, SourceLocation, Terminator, Type, ValidationError, WasmIR,
};

fn block(id: usize, instructions: Vec<Instruction>, terminator: Terminator) -> BasicBlock {
    BasicBlock { id: BlockId(id), instructions, terminator }
}

fn binary_function(name: &str, op: BinaryOp) -> WasmIR {
    let mut wasmir = WasmIR::new(
        name.to_string(),
        Signature { params: vec![Type::I32, Type::I32], returns: Some(Type::I32) },
    );
    wasmir.add_local(Type::I32);
    wasmir.basic_blocks.push(block(
        0,
        vec![
            Instruction::LocalGet { index: 0 },
            Instruction::LocalGet { index: 1 },
            Instruction::BinaryOp { op, left: Operand::Local(0), right: Operand::Local(1) },
            Instruction::LocalSet { index: 2, value: Operand::Local(2) },
        ],
        Terminator::Return { value: Some(Operand::Local(2)) },
    ));
    wasmir
}

fn create_simple_add_function() -> WasmIR {
    binary_function("add_function", BinaryOp::Add)
}

fn create_function_with_constant_folding() -> WasmIR {
    let mut wasmir =
        WasmIR::new("const_fold".to_string(), Signature { params: vec![], returns: Some(Type::I32) });
    wasmir.add_local(Type::I32);
    wasmir.basic_blocks.push(block(
        0,
        vec![
            Instruction::BinaryOp {
                op: BinaryOp::Add,
                left: Operand::Constant(Constant::I32(10)),
                right: Operand::Constant(Constant::I32(20)),
            },
            Instruction::LocalSet { index: 0, value: Operand::Local(0) },
        ],
        Terminator::Return { value: Some(Operand::Local(0)) },
    ));
    wasmir
}

fn one_param_function(name: &str) -> WasmIR {
    let mut wasmir =
        WasmIR::new(name.to_string(), Signature { params: vec![Type::I32], returns: Some(Type::I32) });
    wasmir.add_local(Type::I32);
    wasmir.basic_blocks.push(block(
        0,
        vec![
            Instruction::LocalGet { index: 0 },
            Instruction::LocalSet { index: 1, value: Operand::Local(0) },
        ],
        Terminator::Return { value: Some(Operand::Local(1)) },
    ));
    wasmir
}

#[test]
fn test_wasm_codegen_creation() {
    let codegen = WasmCodegen::new();
    assert!(codegen.wasm_bytes().is_empty());
    assert!(codegen.function_section().is_empty());
    assert!(codegen.code_section().is_empty());
}

#[test]
fn test_simple_function_compilation() {
    let mut codegen = WasmCodegen::new();
    let mut wasmir = WasmIR::new(
        "test_function".to_string(),
        Signature { params: vec![Type::I32, Type::I32], returns: Some(Type::I32) },
    );
    wasmir.basic_blocks.push(block(
        0,
        vec![
            Instruction::LocalGet { index: 0 },
            Instruction::LocalGet { index: 1 },
            Instruction::BinaryOp { op: BinaryOp::Add, left: Operand::Local(0), right: Operand::Local(1) },
        ],
        Terminator::Return { value: None },
    ));
    let result = codegen.compile(&mut wasmir);
    assert!(result.is_ok());
    let compilation_result = result.unwrap();
    assert!(!compilation_result.code.is_empty());
    assert_eq!(&compilation_result.code[0..4], &[0x00, 0x61, 0x73, 0x6d]);
}

#[test]
fn test_exact_module_bytes() {
    let mut codegen = WasmCodegen::new();
    let mut wasmir = WasmIR::new("f".to_string(), Signature { params: vec![], returns: None });
    wasmir.basic_blocks.push(block(0, vec![Instruction::Nop], Terminator::Return { value: None }));
    let r = codegen.compile(&mut wasmir).unwrap();
    let expected: Vec<u8> = vec![
        0x00, 0x61, 0x73, 0x6d, 0x01, 0x00, 0x00, 0x00, // header
        0x01, 0x04, 0x01, 0x60, 0x00, 0x00, // type section
        0x02, 0x01, 0x00, // import section
        0x03, 0x02, 0x01, 0x00, // function section
        0x07, 0x05, 0x01, 0x01, 0x66, 0x00, 0x00, // export section
        0x0a, 0x08, 0x01, 0x03, 0x00, 0x00, 0x00, 0x00, 0x01, 0x0b, // code section
    ];
    assert_eq!(r.code, expected);
    assert_eq!(codegen.wasm_bytes(), &expected);
    assert_eq!(r.symbols, vec![("f".to_string(), 0)]);
    assert!(r.relocations.is_empty());
    assert_eq!(r.metadata.target, "wasm32-unknown-unknown");
}

#[test]
fn test_simple_wasmir_to_wasm() {
    let mut wasmir = create_simple_add_function();
    let mut codegen = WasmCodegen::new();
    let result = codegen.compile(&mut wasmir);
    assert!(result.is_ok());
    let compilation_result = result.unwrap();
    assert!(!compilation_result.code.is_empty());
    assert_eq!(&compilation_result.code[0..4], &[0x00, 0x61, 0x73, 0x6d]);
    assert_eq!(&compilation_result.code[4..8], &[0x01, 0x00, 0x00, 0x00]);
}

#[test]
fn test_cranelift_wasm_compilation() {
    let mut backend = WasmRustCraneliftBackend::new(Target { arch: "wasm32".to_string() }).unwrap();
    let mut wasmir = create_simple_add_function();
    let result = backend.compile_to_wasm(&mut wasmir);
    assert!(result.is_ok());
    let wasm_bytes = result.unwrap();
    assert!(!wasm_bytes.is_empty());
    assert_eq!(&wasm_bytes[0..4], &[0x00, 0x61, 0x73, 0x6d]);
}

#[test]
fn test_optimization_passes() {
    let mut wasmir = create_function_with_constant_folding();
    let mut codegen = WasmCodegen::new();
    let passes = codegen.wasm_optimizer().get_optimization_passes();
    assert!(passes.contains(&"dead_code_elimination"));
    assert!(passes.contains(&"constant_folding"));
    assert!(passes.contains(&"instruction_selection"));
    let result = codegen.compile(&mut wasmir);
    assert!(result.is_ok());
    assert!(!result.unwrap().code.is_empty());
}

#[test]
fn test_streaming_layout_optimization() {
    let mut wasmir = WasmIR::new(
        "complex".to_string(),
        Signature { params: vec![Type::I32, Type::I32], returns: Some(Type::I32) },
    );
    wasmir.add_local(Type::I32);
    wasmir.add_local(Type::I32);
    wasmir.basic_blocks.push(block(
        0,
        vec![
            Instruction::LocalGet { index: 0 },
            Instruction::LocalGet { index: 1 },
            Instruction::BinaryOp { op: BinaryOp::Add, left: Operand::Local(0), right: Operand::Local(1) },
            Instruction::LocalSet { index: 2, value: Operand::Local(2) },
        ],
        Terminator::Jump { target: BlockId(1) },
    ));
    wasmir.basic_blocks.push(block(
        1,
        vec![
            Instruction::LocalGet { index: 2 },
            Instruction::BinaryOp {
                op: BinaryOp::Mul,
                left: Operand::Local(2),
                right: Operand::Constant(Constant::I32(2)),
            },
            Instruction::LocalSet { index: 3, value: Operand::Local(3) },
        ],
        Terminator::Return { value: Some(Operand::Local(3)) },
    ));
    let mut codegen = WasmCodegen::new();
    let result = codegen.compile(&mut wasmir);
    assert!(result.is_ok());
    assert!(!result.unwrap().code.is_empty());
    // The multiplication by two became a shift by one.
    assert_eq!(
        wasmir.basic_blocks[1].instructions[1],
        Instruction::BinaryOp {
            op: BinaryOp::Shl,
            left: Operand::Local(2),
            right: Operand::Constant(Constant::I32(1)),
        }
    );
}

#[test]
fn test_constant_folding() {
    let mut wasmir = create_function_with_constant_folding();
    let mut codegen = WasmCodegen::new();
    let result = codegen.compile(&mut wasmir);
    assert!(result.is_ok());
    let compilation_result = result.unwrap();
    assert!(!compilation_result.code.is_empty());
    assert!(compilation_result.code.len() < 200);
    assert_eq!(
        wasmir.basic_blocks[0].instructions[0],
        Instruction::LocalSet { index: 0, value: Operand::Constant(Constant::I32(30)) }
    );
}

#[test]
fn test_dead_code_elimination() {
    let mut wasmir =
        WasmIR::new("dead_code".to_string(), Signature { params: vec![Type::I32], returns: Some(Type::I32) });
    wasmir.add_local(Type::I32);
    wasmir.add_local(Type::I32);
    wasmir.basic_blocks.push(block(
        0,
        vec![
            Instruction::LocalGet { index: 0 },
            Instruction::LocalSet { index: 1, value: Operand::Local(0) },
        ],
        Terminator::Return { value: Some(Operand::Local(1)) },
    ));
    let mut codegen = WasmCodegen::new();
    let result = codegen.compile(&mut wasmir);
    assert!(result.is_ok());
    assert!(!result.unwrap().code.is_empty());
    // Local 2 is never referenced and was dropped.
    assert_eq!(wasmir.locals.len(), 1);
}

#[test]
fn test_dead_blocks_are_removed() {
    let mut wasmir = WasmIR::new("f".to_string(), Signature { params: vec![], returns: None });
    wasmir.basic_blocks.push(block(0, vec![], Terminator::Jump { target: BlockId(2) }));
    wasmir.basic_blocks.push(block(1, vec![Instruction::Nop], Terminator::Unreachable));
    wasmir.basic_blocks.push(block(2, vec![], Terminator::Return { value: None }));
    eliminate_dead_code(&mut wasmir);
    let ids: Vec<usize> = wasmir.basic_blocks.iter().map(|b| b.id.0).collect();
    assert_eq!(ids, vec![0, 2]);
}

#[test]
fn test_instruction_selection() {
    let mut wasmir =
        WasmIR::new("mul_opt".to_string(), Signature { params: vec![Type::I32], returns: Some(Type::I32) });
    wasmir.add_local(Type::I32);
    wasmir.basic_blocks.push(block(
        0,
        vec![
            Instruction::LocalGet { index: 0 },
            Instruction::BinaryOp {
                op: BinaryOp::Mul,
                left: Operand::Local(0),
                right: Operand::Constant(Constant::I32(8)),
            },
            Instruction::LocalSet { index: 1, value: Operand::Local(1) },
        ],
        Terminator::Return { value: Some(Operand::Local(1)) },
    ));
    let mut codegen = WasmCodegen::new();
    let result = codegen.compile(&mut wasmir);
    assert!(result.is_ok());
    assert!(!result.unwrap().code.is_empty());
    assert_eq!(
        wasmir.basic_blocks[0].instructions[1],
        Instruction::BinaryOp {
            op: BinaryOp::Shl,
            left: Operand::Local(0),
            right: Operand::Constant(Constant::I32(3)),
        }
    );
}

#[test]
fn test_ownership_tracking() {
    let mut wasmir = one_param_function("ownership");
    wasmir.add_ownership_annotation(OwnershipAnnotation {
        variable: 0,
        state: OwnershipState::Owned,
        source_location: SourceLocation { file: "test.rs".to_string(), line: 1, column: 0 },
    });
    let mut codegen = WasmCodegen::new();
    let result = codegen.compile(&mut wasmir);
    assert!(result.is_ok());
    assert!(!result.unwrap().code.is_empty());
    assert!(!wasmir.ownership_annotations.is_empty());
}

#[test]
fn test_capability_annotations() {
    let mut wasmir = one_param_function("capabilities");
    wasmir.add_capability(Capability::JsInterop);
    wasmir.add_capability(Capability::Threading);
    wasmir.add_capability(Capability::JsInterop);
    assert_eq!(wasmir.capabilities, vec![Capability::JsInterop, Capability::Threading]);
    let mut codegen = WasmCodegen::new();
    let result = codegen.compile(&mut wasmir);
    assert!(result.is_ok());
    assert!(!result.unwrap().code.is_empty());
    assert!(!wasmir.capabilities.is_empty());
}

#[test]
fn wasm_integration_test_error_handling() {
    let mut invalid_wasmir =
        WasmIR::new("invalid".to_string(), Signature { params: vec![Type::I32], returns: Some(Type::I32) });
    invalid_wasmir.basic_blocks.push(block(
        0,
        vec![Instruction::LocalGet { index: 999 }],
        Terminator::Return { value: None },
    ));
    let mut codegen = WasmCodegen::new();
    let result = codegen.compile(&mut invalid_wasmir);
    assert!(result.is_err());
    assert_eq!(
        result.unwrap_err(),
        BackendError::CompilationFailed("WasmIR validation failed: invalid local index 999".to_string())
    );
}

#[test]
fn test_unsupported_instruction_is_reported() {
    let mut wasmir = WasmIR::new("f".to_string(), Signature { params: vec![], returns: None });
    wasmir.basic_blocks.push(block(
        0,
        vec![Instruction::Call { func_ref: 1, args: vec![] }],
        Terminator::Return { value: None },
    ));
    let mut codegen = WasmCodegen::new();
    match codegen.compile(&mut wasmir) {
        Err(BackendError::Unsupported(m)) => assert_eq!(m, "Instruction not yet implemented: Call { func_ref: 1, args: [] }"),
        other => panic!("unexpected result: {:?}", other),
    }
}

#[test]
fn unsupported_terminator_and_type_are_reported_in_order() {
    let mut branching = WasmIR::new("g".to_string(), Signature { params: vec![Type::I32], returns: None });
    branching.basic_blocks.push(block(
        0,
        vec![Instruction::Nop],
        Terminator::Branch { condition: Operand::Local(0), then_block: BlockId(1), else_block: BlockId(1) },
    ));
    branching.basic_blocks.push(block(1, vec![Instruction::Call { func_ref: 0, args: vec![] }], Terminator::Unreachable));
    let mut codegen = WasmCodegen::new();
    assert_eq!(
        codegen.compile(&mut branching).unwrap_err(),
        BackendError::Unsupported(
            "Terminator not yet implemented: Branch { condition: Local(0), then_block: BlockId(1), else_block: BlockId(1) }".to_string()
        )
    );

    let mut host = WasmIR::new(
        "h".to_string(),
        Signature { params: vec![Type::ExternRef("JsObject".to_string())], returns: None },
    );
    host.basic_blocks.push(block(0, vec![Instruction::Call { func_ref: 0, args: vec![] }], Terminator::Unreachable));
    assert_eq!(
        codegen.compile(&mut host).unwrap_err(),
        BackendError::Unsupported("Type not supported in WASM: ExternRef(\"JsObject\")".to_string())
    );
}

#[test]
fn wasm_integration_test_multiple_functions() {
    let functions = vec![
        create_simple_add_function(),
        binary_function("mul_function", BinaryOp::Mul),
        binary_function("div_function", BinaryOp::Div),
    ];
    let mut codegen = WasmCodegen::new();
    for (i, mut wasmir) in functions.into_iter().enumerate() {
        let result = codegen.compile(&mut wasmir);
        assert!(result.is_ok(), "Function {} should compile", i);
        let compilation_result = result.unwrap();
        assert!(!compilation_result.code.is_empty());
        assert_eq!(&compilation_result.code[0..4], &[0x00, 0x61, 0x73, 0x6d]);
    }
}

#[test]
fn test_validate_valid_function() {
    let mut func = WasmIR::new("test".to_string(), Signature { params: vec![Type::I32], returns: Some(Type::I32) });
    let local_index = func.add_local(Type::I32);
    func.add_basic_block(
        vec![Instruction::LocalGet { index: local_index }],
        Terminator::Return { value: Some(Operand::Local(local_index)) },
    );
    assert!(func.validate().is_ok(), "Validation should pass for a well-formed function.");
}

#[test]
fn test_validate_invalid_local_index_in_instruction() {
    let mut func = WasmIR::new("test".to_string(), Signature { params: vec![], returns: None });
    func.add_basic_block(vec![Instruction::LocalGet { index: 99 }], Terminator::Return { value: None });
    let result = func.validate();
    assert!(result.is_err());
    match result.unwrap_err() {
        ValidationError::InvalidLocalIndex(idx) => assert_eq!(idx, 99),
        _ => panic!("Expected an InvalidLocalIndex error."),
    }
}

#[test]
fn test_validate_invalid_local_index_in_terminator() {
    let mut func = WasmIR::new("test".to_string(), Signature { params: vec![], returns: Some(Type::I32) });
    func.add_basic_block(vec![], Terminator::Return { value: Some(Operand::Local(123)) });
    let result = func.validate();
    assert!(result.is_err());
    match result.unwrap_err() {
        ValidationError::InvalidLocalIndex(idx) => assert_eq!(idx, 123),
        _ => panic!("Expected an InvalidLocalIndex error."),
    }
}

#[test]
fn test_validate_invalid_block_id_in_terminator() {
    let mut func = WasmIR::new("test".to_string(), Signature { params: vec![], returns: None });
    func.add_basic_block(vec![], Terminator::Jump { target: BlockId(1) });
    let result = func.validate();
    assert!(result.is_err());
    match result.unwrap_err() {
        ValidationError::InvalidBlockId(desc) => assert_eq!(desc, "jump_target"),
        _ => panic!("Expected an InvalidBlockId error."),
    }
}

#[test]
fn test_leb128_encoding() {
    let mut out = Vec::new();
    encode_u32(0, &mut out);
    encode_u32(127, &mut out);
    encode_u32(128, &mut out);
    encode_u32(624485, &mut out);
    encode_u32(u32::MAX, &mut out);
    assert_eq!(
        out,
        vec![0x00, 0x7f, 0x80, 0x01, 0xe5, 0x8e, 0x26, 0xff, 0xff, 0xff, 0xff, 0x0f]
    );
}

#[test]
fn test_constant_evaluation() {
    assert_eq!(
        evaluate_binary_op(BinaryOp::Add, &Constant::I32(i32::MAX), &Constant::I32(1)),
        Some(Constant::I32(i32::MIN))
    );
    assert_eq!(evaluate_binary_op(BinaryOp::Div, &Constant::I32(7), &Constant::I32(0)), None);
    assert_eq!(evaluate_binary_op(BinaryOp::Div, &Constant::I32(i32::MIN), &Constant::I32(-1)), None);
    assert_eq!(evaluate_binary_op(BinaryOp::Mod, &Constant::I64(-7), &Constant::I64(3)), Some(Constant::I64(-1)));
    assert_eq!(evaluate_binary_op(BinaryOp::Shl, &Constant::I32(1), &Constant::I32(32)), Some(Constant::I32(1)));
    assert_eq!(evaluate_binary_op(BinaryOp::Shl, &Constant::I32(1), &Constant::I32(40)), Some(Constant::I32(256)));
    assert_eq!(evaluate_binary_op(BinaryOp::Shl, &Constant::I32(1), &Constant::I32(-1)), Some(Constant::I32(i32::MIN)));
    assert_eq!(evaluate_binary_op(BinaryOp::Shr, &Constant::I32(-8), &Constant::I32(33)), Some(Constant::I32(-4)));
    assert_eq!(evaluate_binary_op(BinaryOp::Shl, &Constant::I64(3), &Constant::I64(64)), Some(Constant::I64(3)));
    assert_eq!(evaluate_binary_op(BinaryOp::Shr, &Constant::I64(-1), &Constant::I64(-1)), Some(Constant::I64(-1)));
    assert_eq!(evaluate_binary_op(BinaryOp::Lt, &Constant::I64(1), &Constant::I64(2)), Some(Constant::I64(1)));
    assert_eq!(evaluate_binary_op(BinaryOp::Add, &Constant::I32(1), &Constant::I64(2)), None);
    let mut inst = Instruction::BinaryOp {
        op: BinaryOp::Mul,
        left: Operand::Constant(Constant::I32(6)),
        right: Operand::Constant(Constant::I32(7)),
    };
    fold_constants(&mut inst);
    assert_eq!(inst, Instruction::LocalSet { index: 0, value: Operand::Constant(Constant::I32(42)) });
}

#[test]
fn test_power_of_two_selection() {
    assert_eq!(exact_log2(1), Some(0));
    assert_eq!(exact_log2(1024), Some(10));
    assert_eq!(exact_log2(6), None);
    assert_eq!(exact_log2(0), None);
    assert_eq!(exact_log2(-8), None);
    let mut inst = Instruction::BinaryOp {
        op: BinaryOp::Div,
        left: Operand::Local(0),
        right: Operand::Constant(Constant::I32(16)),
    };
    optimize_instruction(&mut inst);
    assert_eq!(
        inst,
        Instruction::BinaryOp { op: BinaryOp::Div, left: Operand::Local(0), right: Operand::Constant(Constant::I32(16)) }
    );
    let mut inst = Instruction::BinaryOp {
        op: BinaryOp::Mul,
        left: Operand::Local(0),
        right: Operand::Constant(Constant::I32(16)),
    };
    optimize_instruction(&mut inst);
    assert_eq!(
        inst,
        Instruction::BinaryOp { op: BinaryOp::Shl, left: Operand::Local(0), right: Operand::Constant(Constant::I32(4)) }
    );
}

#[test]
fn test_layout_follows_control_flow() {
    let mut wasmir = WasmIR::new("f".to_string(), Signature { params: vec![], returns: None });
    wasmir.basic_blocks.push(block(0, vec![], Terminator::Jump { target: BlockId(2) }));
    wasmir.basic_blocks.push(block(1, vec![], Terminator::Return { value: None }));
    wasmir.basic_blocks.push(block(2, vec![], Terminator::Jump { target: BlockId(1) }));
    let mut layout = StreamingLayoutOptimizer::new();
    assert!(layout.optimize_layout(&mut wasmir).is_ok());
    let ids: Vec<usize> = wasmir.basic_blocks.iter().map(|b| b.id.0).collect();
    assert_eq!(ids, vec![0, 2, 1]);
    assert!(layout.segment_boundaries().is_empty());
}

#[test]
fn test_disabled_optimizer_leaves_function() {
    let mut optimizer = WasmOptimizer::new();
    optimizer.set_enabled(false);
    let mut wasmir = create_function_with_constant_folding();
    assert!(optimizer.apply_optimizations(&mut wasmir).is_ok());
    assert_eq!(wasmir, create_function_with_constant_folding());
}

// Stand-ins for a WasmIR serialization format.
fn create_comprehensive_wasmir_for_serialization() -> WasmIR {
    WasmIR::new("test".to_string(), Signature { params: vec![], returns: None })
}

fn serialize_wasmir(_wasmir: &WasmIR) -> Vec<u8> {
    b"serialized_data".to_vec()
}

fn deserialize_wasmir(_data: &[u8]) -> WasmIR {
    WasmIR::new("test".to_string(), Signature { params: vec![], returns: None })
}

#[test]
fn test_round_trip_schema_validation() {
    let original_wasmir = create_comprehensive_wasmir_for_serialization();
    let serialized_data = serialize_wasmir(&original_wasmir);
    let deserialized_wasmir = deserialize_wasmir(&serialized_data);
    assert_eq!(original_wasmir, deserialized_wasmir, "WasmIR serialization round-trip failed. Metadata may have been lost.");
}

#[test]
fn segment_boundaries_accumulate_across_functions() {
    let mut large = WasmIR::new("large".to_string(), Signature { params: vec![], returns: None });
    let mut nops = Vec::new();
    for _ in 0..1100 {
        nops.push(Instruction::Nop);
    }
    large.basic_blocks.push(block(0, nops, Terminator::Return { value: None }));
    let mut small = WasmIR::new("small".to_string(), Signature { params: vec![], returns: None });
    small.basic_blocks.push(block(0, vec![Instruction::Nop, Instruction::Nop], Terminator::Return { value: None }));
    let mut layout = StreamingLayoutOptimizer::new();
    assert!(layout.create_code_segments(&large).is_ok());
    assert_eq!(layout.segment_boundaries(), &vec![0, 1101]);
    assert!(layout.create_code_segments(&small).is_ok());
    assert_eq!(layout.segment_boundaries(), &vec![0, 1101, 3]);
}

#[test]
fn selection_keeps_the_computed_value() {
    for &x in &[123456789i32, -7, i32::MIN, i32::MAX] {
        let mut inst = Instruction::BinaryOp {
            op: BinaryOp::Mul,
            left: Operand::Local(0),
            right: Operand::Constant(Constant::I32(1024)),
        };
        optimize_instruction(&mut inst);
        if let Instruction::BinaryOp { op, right: Operand::Constant(c), .. } = inst {
            assert_eq!(
                evaluate_binary_op(op, &Constant::I32(x), &c),
                evaluate_binary_op(BinaryOp::Mul, &Constant::I32(x), &Constant::I32(1024))
            );
        } else {
            panic!("selection changed the instruction's shape");
        }
    }
    assert_eq!(evaluate_binary_op(BinaryOp::Div, &Constant::I32(-7), &Constant::I32(2)), Some(Constant::I32(-3)));
}

#[test]
fn unsupported_messages_render_values_as_debug_does() {
    let instructions = vec![
        Instruction::Call {
            func_ref: 7,
            args: vec![Operand::Local(3), Operand::Constant(Constant::I64(-42)), Operand::StackValue(1)],
        },
        Instruction::MemoryStore {
            address: Operand::Constant(Constant::I32(i32::MIN)),
            value: Operand::Constant(Constant::Boolean(true)),
            ty: Type::Array { element_type: Box::new(Type::Pointer(Box::new(Type::F64))), size: Some(4) },
            align: None,
            offset: 16,
        },
        Instruction::ExternRefCast {
            externref: Operand::Constant(Constant::F32(1069547520)),
            target_type: Type::Struct { fields: vec![Type::I32, Type::ExternRef("Js \"Obj\"".to_string()), Type::Void] },
        },
        Instruction::Return { value: Some(Operand::Local(2)) },
    ];
    for inst in instructions {
        let mut w = WasmIR::new("f".to_string(), Signature { params: vec![], returns: None });
        w.locals = vec![Type::I32, Type::I32, Type::I32, Type::I32];
        let expected = format!("Instruction not yet implemented: {:?}", inst);
        w.basic_blocks.push(block(0, vec![inst], Terminator::Unreachable));
        let mut codegen = WasmCodegen::new();
        assert_eq!(codegen.compile(&mut w).unwrap_err(), BackendError::Unsupported(expected));
    }
    let terminator = Terminator::Switch {
        value: Operand::Constant(Constant::I32(0)),
        targets: vec![(Operand::Constant(Constant::I32(1)), BlockId(0)), (Operand::Constant(Constant::I32(2)), BlockId(0))],
        default_target: BlockId(0),
    };
    let expected = format!("Terminator not yet implemented: {:?}", terminator);
    let mut w = WasmIR::new("g".to_string(), Signature { params: vec![], returns: None });
    w.basic_blocks.push(block(0, vec![], terminator));
    let mut codegen = WasmCodegen::new();
    assert_eq!(codegen.compile(&mut w).unwrap_err(), BackendError::Unsupported(expected));
    let ty = Type::Struct { fields: vec![] };
    let expected = format!("Type not supported in WASM: {:?}", ty);
    let mut w = WasmIR::new("h".to_string(), Signature { params: vec![Type::I32], returns: Some(ty) });
    w.basic_blocks.push(block(0, vec![], Terminator::Unreachable));
    assert_eq!(codegen.compile(&mut w).unwrap_err(), BackendError::Unsupported(expected));
}
