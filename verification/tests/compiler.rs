use wasmrust::backend::{BuildProfile, OptimizationLevel, Target};
use wasmrust::compiler::{CompilerConfig, WasmRustCompiler, WasmRustFrontend, DEFAULT_TARGET, VERSION};
use wasmrust::mir_lowering::{
    MirBasicBlock, MirBinOp, MirFunction, MirLocalDecl, MirOperand, MirPlace, MirRvalue,
    MirSignature, MirSourceInfo, MirSpan, MirStatement, MirTerminator, MirType,
};

#[test]
fn test_compiler_creation() {
    let compiler = WasmRustCompiler::new(Target { arch: "wasm32".to_string() });
    assert_eq!(compiler.target_arch(), "wasm32");
    assert!(WasmRustCompiler::available_backends().contains(&"cranelift"));
}

#[test]
fn test_target_support() {
    assert!(WasmRustCompiler::is_target_supported("wasm32-unknown-unknown"));
    assert!(!WasmRustCompiler::is_target_supported("x86_64-unknown-linux"));
}

#[test]
fn test_frontend_creation() {
    let config = CompilerConfig::default();
    let frontend = WasmRustFrontend::new(config);
    assert!(frontend.is_ok());
    let frontend = frontend.unwrap();
    assert_eq!(frontend.get_config().target, DEFAULT_TARGET);
}

#[test]
fn test_config_validation() {
    let mut frontend = WasmRustFrontend::new(CompilerConfig::default()).unwrap();
    assert!(frontend.validate_config().is_ok());
    let mut invalid_config = frontend.get_config().clone();
    invalid_config.target = "invalid-target".to_string();
    frontend.update_config(invalid_config);
    assert!(frontend.validate_config().is_err());
    assert_eq!(frontend.validate_config().unwrap_err(), "Unsupported target: invalid-target");
}

#[test]
fn test_version() {
    assert!(!VERSION.is_empty());
    assert_eq!(VERSION, "0.1.0");
}

#[test]
fn test_default_target() {
    assert_eq!(DEFAULT_TARGET, "wasm32-unknown-unknown");
    assert!(WasmRustCompiler::is_target_supported(DEFAULT_TARGET));
}

#[test]
fn test_compiler_config() {
    let config = CompilerConfig::default();
    assert_eq!(config.optimization_level, OptimizationLevel::Standard);
    assert_eq!(config.build_profile, BuildProfile::Development);
    assert_eq!(config.target, DEFAULT_TARGET);
    assert!(config.debug_info);
    assert!(!config.lto);
    assert!(config.pgo.is_none());
}

#[test]
fn test_unimplemented_entry_points() {
    let mut frontend = WasmRustFrontend::new(CompilerConfig::default()).unwrap();
    assert_eq!(frontend.compile_crate("x").unwrap_err(), "Crate compilation not yet implemented");
    assert_eq!(frontend.compile_file("x.rs").unwrap_err(), "File compilation not yet implemented");
}

#[test]
fn test_compile_mir_to_wasm() {
    let span = MirSpan { filename: "t.rs".to_string(), line: 1, column: 1 };
    let info = MirSourceInfo { span };
    let mir = MirFunction {
        name: "add".to_string(),
        signature: MirSignature { inputs: vec![MirType::I32, MirType::I32], output: MirType::I32 },
        basic_blocks: vec![MirBasicBlock {
            statements: vec![MirStatement::Assign(
                MirPlace::Local(2),
                MirRvalue::BinaryOp(
                    MirBinOp::Add,
                    MirOperand::Copy(Box::new(MirPlace::Local(0))),
                    MirOperand::Copy(Box::new(MirPlace::Local(1))),
                ),
            )],
            terminator: MirTerminator::Return,
        }],
        local_decls: vec![
            MirLocalDecl { ty: MirType::I32, source_info: info.clone() },
            MirLocalDecl { ty: MirType::I32, source_info: info.clone() },
            MirLocalDecl { ty: MirType::I32, source_info: info.clone() },
        ],
        source_info: info,
    };
    let mut compiler = WasmRustCompiler::new(Target { arch: "wasm32".to_string() });
    let r = compiler.compile_mir(&mir, BuildProfile::Development).unwrap();
    assert_eq!(&r.code[0..8], &[0x00, 0x61, 0x73, 0x6d, 0x01, 0x00, 0x00, 0x00]);
    assert_eq!(r.symbols, vec![("add".to_string(), 0)]);
}

#[test]
fn test_compile_mir_lowering_error() {
    let span = MirSpan { filename: "t.rs".to_string(), line: 1, column: 1 };
    let info = MirSourceInfo { span };
    let mir = MirFunction {
        name: "bad".to_string(),
        signature: MirSignature { inputs: vec![], output: MirType::Unit },
        basic_blocks: vec![MirBasicBlock {
            statements: vec![],
            terminator: MirTerminator::Goto { target: 3 },
        }],
        local_decls: vec![],
        source_info: info,
    };
    let mut compiler = WasmRustCompiler::new(Target { arch: "wasm32".to_string() });
    let e = compiler.compile_mir(&mir, BuildProfile::Development).unwrap_err();
    assert_eq!(e.to_message(), "Compilation failed: MIR lowering failed: Invalid block target: 3");
}
