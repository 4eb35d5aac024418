//! Backend interface: compilation results, optimization levels, build
//! profiles, backend capabilities and errors, and the choice of a backend
//! for a target and profile.
use vstd::prelude::*;
use crate::wasmir::WasmIR;
use crate::text::{concat, str_eq};

verus! {

#[verifier::external_type_specification]
#[verifier::external_body]
pub struct ExSystemTime(std::time::SystemTime);

/// Reads the system clock (`std::time::SystemTime::now`). Nothing is
/// claimed about the value: it is whatever the clock says.
#[verifier::external_body]
pub(crate) fn current_time() -> std::time::SystemTime {
    std::time::SystemTime::now()
}

/// A compilation target, by architecture.
#[derive(Debug, Clone)]
pub struct Target {
    pub arch: String,
}

/// The result of compiling a function.
#[derive(Debug)]
pub struct CompilationResult {
    /// The emitted bytes.
    pub code: Vec<u8>,
    /// Symbol table for linking: names with their addresses, each name at
    /// most once (a map from names to addresses, held as a list of pairs so
    /// that contracts can speak of its entries by their text).
    pub symbols: Vec<(String, u64)>,
    /// Relocations to apply when linking.
    pub relocations: Vec<Relocation>,
    /// How the code was produced.
    pub metadata: CompilationMetadata,
}

/// A relocation for the linker.
#[derive(Debug, Clone)]
pub struct Relocation {
    pub kind: RelocationKind,
    /// Offset in the code where the relocation applies.
    pub offset: u32,
    /// The symbol referred to.
    pub symbol: String,
    /// Addend to the symbol's value.
    pub addend: i64,
}

/// Kinds of relocations.
#[derive(Debug, Clone, Copy, PartialEq, Eq, Structural)]
pub enum RelocationKind {
    Absolute,
    Relative,
    FunctionCall,
    DataAccess,
    GlobalAccess,
}

/// How a compilation was made.
#[derive(Debug)]
pub struct CompilationMetadata {
    /// Target triple or architecture.
    pub target: String,
    pub optimization_level: OptimizationLevel,
    pub build_profile: BuildProfile,
    /// When the compilation finished.
    pub timestamp: std::time::SystemTime,
}

/// Optimization levels.
#[derive(Debug, Clone, Copy, PartialEq, Eq, Structural)]
pub enum OptimizationLevel {
    /// No optimizations (debug builds).
    Unoptimized,
    Basic,
    Standard,
    Aggressive,
    PGO,
}

/// Build profiles.
#[derive(Debug, Clone, Copy, PartialEq, Eq, Structural)]
pub enum BuildProfile {
    /// No standard library.
    Freestanding,
    /// Fast compilation.
    Development,
    /// Maximum optimization.
    Release,
}

/// What a backend supports.
#[derive(Debug, Clone, Copy, PartialEq, Eq, Structural)]
pub struct BackendCapabilities {
    pub thin_monomorphization: bool,
    pub streaming_layout: bool,
    pub pgo_support: bool,
    pub component_model: bool,
    pub wasm_optimizations: bool,
    pub linear_types: bool,
}

/// Backend errors, each with a message.
#[derive(Debug, Clone, PartialEq, Eq)]
pub enum BackendError {
    CompilationFailed(String),
    Unsupported(String),
    LinkingFailed(String),
    UnsupportedTarget(String),
    OptimizationFailed(String),
    ResourceExhausted(String),
}

/// The prefix that the display text of an error puts before its message.
pub open spec fn error_prefix(e: BackendError) -> Seq<char> {
    match e {
        BackendError::CompilationFailed(_) => "Compilation failed: "@,
        BackendError::Unsupported(_) => "Unsupported: "@,
        BackendError::LinkingFailed(_) => "Linking failed: "@,
        BackendError::UnsupportedTarget(_) => "Unsupported target: "@,
        BackendError::OptimizationFailed(_) => "Optimization failed: "@,
        BackendError::ResourceExhausted(_) => "Resource exhausted: "@,
    }
}

/// The message an error carries.
pub open spec fn error_message(e: BackendError) -> Seq<char> {
    match e {
        BackendError::CompilationFailed(m) => m@,
        BackendError::Unsupported(m) => m@,
        BackendError::LinkingFailed(m) => m@,
        BackendError::UnsupportedTarget(m) => m@,
        BackendError::OptimizationFailed(m) => m@,
        BackendError::ResourceExhausted(m) => m@,
    }
}

impl BackendError {
    /// The display text: a prefix naming the kind of error, then the message.
    pub fn to_message(&self) -> (r: String)
        ensures
            r@ == error_prefix(*self) + error_message(*self),
    {
        match self {
            BackendError::CompilationFailed(m) => concat("Compilation failed: ", m.as_str()),
            BackendError::Unsupported(m) => concat("Unsupported: ", m.as_str()),
            BackendError::LinkingFailed(m) => concat("Linking failed: ", m.as_str()),
            BackendError::UnsupportedTarget(m) => concat("Unsupported target: ", m.as_str()),
            BackendError::OptimizationFailed(m) => concat("Optimization failed: ", m.as_str()),
            BackendError::ResourceExhausted(m) => concat("Resource exhausted: ", m.as_str()),
        }
    }
}

/// A code generation backend.
pub trait Backend {
    /// The capabilities the backend reports.
    spec fn spec_capabilities(&self) -> BackendCapabilities;

    /// The optimization levels the backend reports.
    spec fn spec_supported_optimizations(&self) -> Seq<OptimizationLevel>;

    /// Compiles a function.
    fn compile(&mut self, wasmir: &WasmIR, profile: BuildProfile) -> Result<
        CompilationResult,
        BackendError,
    >;

    /// The supported optimization levels.
    fn supported_optimizations(&self) -> (r: Vec<OptimizationLevel>)
        ensures
            r@ == self.spec_supported_optimizations(),
    ;

    /// The backend's capabilities.
    fn capabilities(&self) -> (r: BackendCapabilities)
        ensures
            r == self.spec_capabilities(),
    ;

    /// Resets the backend's state.
    fn reset(&mut self);
}

/// The backends this build offers.
pub open spec fn available_backend_names() -> Seq<Seq<char>> {
    seq!["cranelift"@]
}

/// The backend recommended for a target and profile: Cranelift for the
/// `wasm32` architecture under every profile, none for other targets.
pub open spec fn recommended_backend(target: Seq<char>, profile: BuildProfile) -> Option<Seq<char>> {
    if target == "wasm32"@ {
        Some("cranelift"@)
    } else {
        None
    }
}

/// The check of a backend's capabilities: WASM optimizations are required
/// first, then thin monomorphization.
pub open spec fn capability_check(c: BackendCapabilities) -> Option<Seq<char>> {
    if !c.wasm_optimizations {
        Some("Backend must support WASM optimizations"@)
    } else if !c.thin_monomorphization {
        Some("Backend must support thin monomorphization"@)
    } else {
        None
    }
}

/// Chooses and validates backends.
pub struct BackendFactory;

impl BackendFactory {
    /// Lists the available backends (this build has no LLVM backend).
    pub fn available_backends() -> (r: Vec<&'static str>)
        ensures
            r@.len() == available_backend_names().len(),
            forall|k: int| 0 <= k < r@.len() ==> r@[k]@ == available_backend_names()[k],
    {
        let mut backends: Vec<&'static str> = Vec::new();
        backends.push("cranelift");
        proof {
            reveal_strlit("cranelift");
        }
        backends
    }

    /// The recommended backend for a target architecture and profile.
    pub fn recommend_backend(target: &str, profile: BuildProfile) -> (r: Option<&'static str>)
        ensures
            match recommended_backend(target@, profile) {
                Some(name) => r matches Some(s) && s@ == name,
                None => r is None,
            },
    {
        if str_eq(target, "wasm32") {
            Some("cranelift")
        } else {
            None
        }
    }

    /// Checks that a backend has the capabilities WasmRust relies on.
    pub fn validate_backend<B: Backend>(backend: &B) -> (r: Result<(), BackendError>)
        ensures
            match capability_check(backend.spec_capabilities()) {
                None => r is Ok,
                Some(msg) => r matches Err(BackendError::Unsupported(m)) && m@ == msg,
            },
    {
        let capabilities = backend.capabilities();
        if !capabilities.wasm_optimizations {
            return Err(
                BackendError::Unsupported(String::from_str("Backend must support WASM optimizations")),
            );
        }
        if !capabilities.thin_monomorphization {
            return Err(
                BackendError::Unsupported(
                    String::from_str("Backend must support thin monomorphization"),
                ),
            );
        }
        Ok(())
    }
}

} // verus!
