// Placeholder compiler-harness checks: the harness below stands in for
// running `rustc` with a chosen code generation backend.

struct HarnessResult {
    success: bool,
    logs: String,
    error_message: Option<String>,
}

impl HarnessResult {
    fn success(&self) -> bool {
        self.success
    }
    fn logs(&self) -> &str {
        &self.logs
    }
    fn is_err(&self) -> bool {
        !self.success
    }
    fn unwrap_err(self) -> String {
        self.error_message.unwrap()
    }
}

fn compile_with_backend(backend: &str, args: &str) -> HarnessResult {
    println!("Simulating compilation with backend '{}' and args '{}'", backend, args);
    HarnessResult {
        success: !args.contains("unsupported"),
        logs: if backend == "llvm" { "LLVM logs..." } else { "" }.to_string(),
        error_message: if args.contains("unsupported") { Some("unsupported intrinsic".to_string()) } else { None },
    }
}

fn generate_mir(backend: &str, source_file: &str) -> String {
    println!("Simulating MIR generation for backend '{}' and file '{}'", backend, source_file);
    format!("MIR dump for {}", source_file)
}

fn compile_crate_with_backend(crate_path: &str, backend: &str) -> Vec<u8> {
    println!("Simulating compilation of crate '{}' with backend '{}'", crate_path, backend);
    b"wasm_binary".to_vec()
}

fn run_wasm_in_wasmtime(_wasm: &[u8], input: &str) -> String {
    println!("Simulating execution of wasm with input '{}'", input);
    "output".to_string()
}

#[test]
fn structural_integration_test() {
    let result = compile_with_backend("cranelift", "src/lib.rs --crate-type=lib");
    assert!(result.success(), "Cranelift backend failed to compile a simple library crate.");
    assert!(!result.logs().contains("LLVM"), "LLVM artifacts were found in the build process.");
}

#[test]
fn backend_mir_parity_test() {
    let source_file = "tests/test-cases/simple_function.rs";
    let llvm_mir_dump = generate_mir("llvm", source_file);
    let cranelift_mir_dump = generate_mir("cranelift", source_file);
    assert_eq!(llvm_mir_dump, cranelift_mir_dump, "MIR dump from Cranelift backend does not match the LLVM golden dump.");
}

#[test]
fn negative_test_unsupported_feature() {
    let source_file = "tests/test-cases/unsupported_intrinsic.rs";
    let result = compile_with_backend("cranelift", source_file);
    assert!(result.is_err(), "Cranelift backend should have failed to compile a file with an unsupported feature.");
    let error_message = result.unwrap_err();
    assert!(error_message.contains("unsupported intrinsic"), "The error message did not indicate that the intrinsic was unsupported.");
}

#[test]
fn test_differential_execution() {
    let source_crate = "tests/test-crates/regex-engine";
    let cranelift_wasm = compile_crate_with_backend(source_crate, "cranelift");
    let llvm_wasm = compile_crate_with_backend(source_crate, "llvm");
    let input = "test_string";
    let cranelift_output = run_wasm_in_wasmtime(&cranelift_wasm, input);
    let llvm_output = run_wasm_in_wasmtime(&llvm_wasm, input);
    assert_eq!(cranelift_output, llvm_output, "Differential execution failed: the Cranelift and LLVM backends produced different results for the same input.");
}
