use wasmrust::backend::{
    Backend, BackendCapabilities, BackendError, BackendFactory, BuildProfile, CompilationMetadata,
    CompilationResult, OptimizationLevel, Relocation, RelocationKind, Target,
};
use wasmrust::cranelift::{CompilationStats, CraneliftIntegrationTest, WasmRustCraneliftBackend};
use wasmrust::llvm::{LLVMOptimizationFlags, WasmRustLLVMBackend};
use wasmrust::wasmir::{BasicBlock, BlockId, Instruction, Operand, Signature, Terminator, Type, WasmIR};

fn wasm32() -> Target {
    Target { arch: "wasm32".to_string() }
}

#[test]
fn test_backend_factory_creation() {
    let backend = BackendFactory::create_backend("wasm32", BuildProfile::Development);
    assert!(backend.is_ok());
}

#[test]
fn test_available_backends() {
    let backends = BackendFactory::available_backends();
    assert!(backends.contains(&"cranelift"));
}

#[test]
fn test_backend_recommendations() {
    let recommended = BackendFactory::recommend_backend("wasm32", BuildProfile::Development);
    assert_eq!(recommended, Some("cranelift"));
    let recommended = BackendFactory::recommend_backend("wasm32", BuildProfile::Release);
    assert_eq!(recommended, Some("cranelift"));
    let recommended = BackendFactory::recommend_backend("wasm32", BuildProfile::Freestanding);
    assert_eq!(recommended, Some("cranelift"));
}

#[test]
fn test_no_recommendation_for_other_targets() {
    assert_eq!(BackendFactory::recommend_backend("x86_64", BuildProfile::Release), None);
}

#[test]
fn mod_test_compilation_result() {
    let result = CompilationResult {
        code: vec![0x01, 0x02, 0x03],
        symbols: Vec::new(),
        relocations: Vec::new(),
        metadata: CompilationMetadata {
            target: "wasm32".to_string(),
            optimization_level: OptimizationLevel::Standard,
            build_profile: BuildProfile::Release,
            timestamp: std::time::SystemTime::UNIX_EPOCH,
        },
    };
    assert_eq!(result.code, vec![0x01, 0x02, 0x03]);
    assert!(result.symbols.is_empty());
    assert!(result.relocations.is_empty());
    assert_eq!(result.metadata.target, "wasm32");
    assert_eq!(result.metadata.build_profile, BuildProfile::Release);
}

#[test]
fn test_relocation() {
    let relocation = Relocation {
        kind: RelocationKind::FunctionCall,
        offset: 42,
        symbol: "test_function".to_string(),
        addend: 0,
    };
    assert_eq!(relocation.kind, RelocationKind::FunctionCall);
    assert_eq!(relocation.offset, 42);
    assert_eq!(relocation.symbol, "test_function");
    assert_eq!(relocation.addend, 0);
}

#[test]
fn test_backend_capabilities() {
    let capabilities = BackendCapabilities {
        thin_monomorphization: true,
        streaming_layout: true,
        pgo_support: true,
        component_model: true,
        wasm_optimizations: true,
        linear_types: true,
    };
    assert!(capabilities.thin_monomorphization);
    assert!(capabilities.streaming_layout);
    assert!(capabilities.pgo_support);
    assert!(capabilities.component_model);
    assert!(capabilities.wasm_optimizations);
    assert!(capabilities.linear_types);
}

#[test]
fn test_error_messages() {
    assert_eq!(BackendError::Unsupported("x".to_string()).to_message(), "Unsupported: x");
    assert_eq!(
        BackendError::CompilationFailed("y".to_string()).to_message(),
        "Compilation failed: y"
    );
}

#[test]
fn test_validate_backend() {
    let backend = WasmRustLLVMBackend::new(wasm32()).unwrap();
    assert!(BackendFactory::validate_backend(&backend).is_ok());
}

#[test]
fn test_llvm_backend_creation() {
    let backend = WasmRustLLVMBackend::new(wasm32());
    assert!(backend.is_ok());
    let backend = backend.unwrap();
    assert!(backend.capabilities().pgo_support);
    assert!(backend.capabilities().wasm_optimizations);
}

#[test]
fn mod_test_optimization_flags() {
    let flags = LLVMOptimizationFlags::default();
    assert!(flags.aggressive_inlining);
    assert!(flags.pgo);
    assert!(flags.lto);
    assert!(flags.wasm_optimizations);
}

#[test]
fn test_pgo_profile_loading() {
    let mut backend = WasmRustLLVMBackend::new(wasm32()).unwrap();
    let result = backend.load_pgo_profile(Err("No such file or directory".to_string()));
    assert!(result.is_err());
    assert_eq!(
        result.unwrap_err(),
        BackendError::ResourceExhausted("Failed to read PGO profile: No such file or directory".to_string())
    );
    assert!(backend.load_pgo_profile(Ok(b"test_profile_data".to_vec())).is_ok());
}

#[test]
fn llvm_test_compilation_result() {
    let mut backend = WasmRustLLVMBackend::new(wasm32()).unwrap();
    let wasmir = WasmIR::new(
        "test".to_string(),
        Signature { params: vec![Type::I32, Type::I32], returns: Some(Type::I32) },
    );
    let result = backend.compile(&wasmir, BuildProfile::Release);
    assert!(result.is_ok());
    let compilation_result = result.unwrap();
    assert!(!compilation_result.code.is_empty());
    assert!(!compilation_result.symbols.is_empty());
    assert_eq!(compilation_result.symbols, vec![("test".to_string(), 16)]);
    assert_eq!(compilation_result.metadata.target, "wasm32");
    assert_eq!(compilation_result.metadata.build_profile, BuildProfile::Release);
    assert_eq!(compilation_result.metadata.optimization_level, OptimizationLevel::PGO);
}

#[test]
fn test_llvm_call_relocations() {
    let mut backend = WasmRustLLVMBackend::new(wasm32()).unwrap();
    let mut wasmir = WasmIR::new("caller".to_string(), Signature { params: vec![], returns: None });
    wasmir.basic_blocks.push(BasicBlock {
        id: BlockId(0),
        instructions: vec![
            Instruction::Call { func_ref: 3, args: vec![] },
            Instruction::Nop,
            Instruction::Call { func_ref: 3, args: vec![Operand::Local(0)] },
            Instruction::Call { func_ref: 12, args: vec![] },
        ],
        terminator: Terminator::Return { value: None },
    });
    let r = backend.compile(&wasmir, BuildProfile::Development).unwrap();
    assert_eq!(
        r.symbols,
        vec![
            ("caller".to_string(), 16),
            ("external_function_3".to_string(), 0),
            ("external_function_12".to_string(), 0),
        ]
    );
    assert_eq!(r.relocations.len(), 3);
    assert_eq!(r.relocations[2].symbol, "external_function_12");
    assert_eq!(r.relocations[0].kind, RelocationKind::FunctionCall);
    assert_eq!(r.metadata.optimization_level, OptimizationLevel::Basic);
}

#[test]
fn test_optimization_levels() {
    let backend = WasmRustLLVMBackend::new(wasm32()).unwrap();
    let optimizations = backend.supported_optimizations();
    assert!(optimizations.contains(&OptimizationLevel::Basic));
    assert!(optimizations.contains(&OptimizationLevel::Standard));
    assert!(optimizations.contains(&OptimizationLevel::Aggressive));
    assert!(optimizations.contains(&OptimizationLevel::PGO));
    assert_eq!(backend.get_optimization_level(BuildProfile::Freestanding), OptimizationLevel::Unoptimized);
}

#[test]
fn test_cranelift_statistics() {
    let mut backend = WasmRustCraneliftBackend::new(wasm32()).unwrap();
    assert_eq!(*backend.get_stats(), CompilationStats::default());
    let mut wasmir = WasmIR::new("f".to_string(), Signature { params: vec![], returns: None });
    wasmir.basic_blocks.push(BasicBlock {
        id: BlockId(0),
        instructions: vec![Instruction::Nop],
        terminator: Terminator::Return { value: None },
    });
    let code = backend.compile_to_wasm(&mut wasmir).unwrap();
    assert_eq!(&code[0..4], &[0x00, 0x61, 0x73, 0x6d]);
    assert_eq!(backend.get_stats().functions_compiled, 1);
    assert_eq!(backend.get_stats().optimization_passes, 1);
    let _runner = CraneliftIntegrationTest::new();
}

/// A function with a dead block, so that dead code elimination changes it.
fn function_with_dead_block() -> WasmIR {
    let mut wasmir = WasmIR::new("dead_block".to_string(), Signature { params: vec![Type::I32], returns: None });
    let l = wasmir.add_local(Type::I32);
    wasmir.add_basic_block(
        vec![Instruction::LocalSet { index: l, value: Operand::Local(0) }],
        Terminator::Jump { target: BlockId(1) },
    );
    wasmir.add_basic_block(vec![Instruction::LocalGet { index: l }], Terminator::Return { value: None });
    wasmir.add_basic_block(vec![Instruction::Nop], Terminator::Unreachable);
    wasmir
}

#[test]
fn compiling_twice_gives_the_same_module() {
    let mut first_backend = WasmRustCraneliftBackend::new(wasm32()).unwrap();
    let mut second_backend = WasmRustCraneliftBackend::new(wasm32()).unwrap();
    let mut first = function_with_dead_block();
    let mut second = function_with_dead_block();
    let a = first_backend.compile_to_wasm(&mut first).unwrap();
    let b = second_backend.compile_to_wasm(&mut second).unwrap();
    assert_eq!(a, b);
    assert_eq!(first, second);
    assert_eq!(first.basic_blocks.len(), 2);
    assert_eq!(first.basic_blocks[1].id, BlockId(1));
}
