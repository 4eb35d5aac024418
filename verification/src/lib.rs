//! WasmRust: a Rust-to-WebAssembly compiler pipeline built around the WasmIR
//! intermediate representation.
pub mod wasmir;
pub mod leb128;
pub mod fold;
pub mod cfg;
pub mod text;
pub mod render;
pub mod backend;
pub mod optimize;
pub mod layout;
pub mod wasm_codegen;
pub mod mir_lowering;
pub mod gc;
pub mod component;
pub mod cranelift;
pub mod llvm;
pub mod compiler;
pub mod linear;
pub mod lower;
pub mod registry;
