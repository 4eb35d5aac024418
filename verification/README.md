# wasmrust

A Rust-to-WebAssembly compiler pipeline built around WasmIR, an explicit
intermediate representation, with the logic verified by Verus.

## Layout

- `src/` — the verified library:
  - `wasmir` — the IR, its validation (first defect, exactly) and metadata;
  - `mir_lowering`, `lower` — lowering of a MIR model to WasmIR;
  - `linear` — the linear-type passes (drop scan, path completeness,
    liveness);
  - `cfg`, `optimize`, `fold`, `layout` — control flow, dead code
    elimination, constant folding, instruction selection and the streaming
    block layout;
  - `leb128`, `wasm_codegen` — the WebAssembly encoder and module emitter;
  - `backend`, `cranelift`, `llvm`, `compiler` — backends, backend
    selection and the compiler front door;
  - `gc`, `component` — GC-managed containers and component-model types;
  - `registry` — the curation registry's listing, validation and testing
    rules;
  - `text`, `render` — string helpers and the `{:?}`-style text of IR
    values used in error messages.
- `tests/` — tests of the library.
- `app/` — the registry server (HTTP over SQLite), its command-line client,
  the process runner of the testing pipeline, and file access.
