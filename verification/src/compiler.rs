//! The compiler interface: compiling MIR or WasmIR with the backend chosen
//! for the target and profile, the supported targets, and the compiler
//! configuration with its validation.
use vstd::prelude::*;
use crate::backend::{
    available_backend_names, recommended_backend, BackendError, BackendFactory, BuildProfile,
    CompilationResult, OptimizationLevel, Target,
};
use crate::cranelift::wasm_outcome;
use crate::layout::sizes_fit;
use crate::mir_lowering::{
    empty_env, empty_state, lemma_blocks_step_len, lowered, lowering_blocks, lowering_env,
    lowering_outcome, MirFunction, MirLoweringContext,
};
use crate::text::{concat, str_eq};
use crate::wasmir::WasmIR;
use vstd::string::StringExecFns;

verus! {

/// The compiler's version.
pub const VERSION: &'static str = "0.1.0";

/// The default compilation target.
pub const DEFAULT_TARGET: &'static str = "wasm32-unknown-unknown";

/// The supported target triples.
pub open spec fn supported_target_names() -> Seq<Seq<char>> {
    seq!["wasm32-unknown-unknown"@, "wasm32-unknown-emscripten"@]
}

/// The main compiler interface.
pub struct WasmRustCompiler {
    backend_factory: BackendFactory,
    target: Target,
}

impl WasmRustCompiler {
    /// The target architecture.
    pub closed spec fn arch(&self) -> Seq<char> {
        self.target.arch@
    }

    /// A compiler for `target`.
    pub fn new(target: Target) -> (r: WasmRustCompiler)
        ensures
            r.arch() == target.arch@,
    {
        WasmRustCompiler { backend_factory: BackendFactory, target }
    }

    /// The target architecture.
    pub fn target_arch(&self) -> (r: &str)
        ensures
            r@ == self.arch(),
    {
        self.target.arch.as_str()
    }

    /// Lowers a MIR function with a fresh lowering context; a failure is
    /// reported as `MIR lowering failed: ` and the lowering error.
    fn convert_mir_to_wasmir(&mut self, mir: &MirFunction) -> (r: Result<WasmIR, String>)
        requires
            mir.signature.inputs@.len() + mir.local_decls@.len() < u32::MAX,
            mir.basic_blocks@.len() <= u32::MAX,
        ensures
            exists|e: crate::mir_lowering::LowerEnv, s: crate::mir_lowering::LowerState, lr: Result<WasmIR, String>|
                #![trigger lowering_outcome(empty_env(), empty_state(), *mir, e, s, lr)]
                lowering_outcome(empty_env(), empty_state(), *mir, e, s, lr) && match lr {
                    Ok(w) => r == Ok::<WasmIR, String>(w),
                    Err(m) => r matches Err(x) && x@ == "MIR lowering failed: "@ + m@,
                },
    {
        let mut context = MirLoweringContext::new();
        let lr = context.lower_function(mir);
        proof {
            assert(lowering_outcome(
                empty_env(),
                empty_state(),
                *mir,
                context.env(),
                context.state(),
                lr,
            ));
        }
        match lr {
            Ok(w) => Ok(w),
            Err(m) => Err(concat("MIR lowering failed: ", m.as_str())),
        }
    }

    /// Compiles a MIR function: lowers it to WasmIR, then compiles that with
    /// the backend for the target and profile.
    pub fn compile_mir(&mut self, mir: &MirFunction, build_profile: BuildProfile) -> (r: Result<
        CompilationResult,
        BackendError,
    >)
        requires
            mir.signature.inputs@.len() + mir.local_decls@.len() < u32::MAX,
            mir.basic_blocks@.len() <= u32::MAX,
            forall|i: int|
                0 <= i < mir.basic_blocks@.len() ==> 2 * #[trigger] mir.basic_blocks@[i].statements@.len()
                    < usize::MAX,
        ensures
            exists|e: crate::mir_lowering::LowerEnv, s: crate::mir_lowering::LowerState, lr: Result<WasmIR, String>|
                #![trigger lowering_outcome(empty_env(), empty_state(), *mir, e, s, lr)]
                lowering_outcome(empty_env(), empty_state(), *mir, e, s, lr) && match lr {
                    Ok(w) => exists|n: WasmIR| #[trigger] wasm_outcome(w, n, r),
                    Err(m) => r matches Err(BackendError::CompilationFailed(x)) && x@
                        == "MIR lowering failed: "@ + m@,
                },
    {
        let mut context = MirLoweringContext::new();
        let lr = context.lower_function(mir);
        let ghost e = context.env();
        let ghost s = context.state();
        match lr {
            Ok(w) => {
                let mut wasmir = w;
                proof {
                    let ghost e0 = empty_env();
                    let ghost s0 = empty_state();
                    lemma_blocks_step_len(
                        lowering_env(e0, s0, *mir),
                        crate::mir_lowering::decls_step(
                            e0,
                            s0,
                            mir.local_decls@,
                            mir.signature.inputs@.len(),
                            mir.local_decls@.len() as int,
                        ).1,
                        mir.basic_blocks@,
                        mir.basic_blocks@.len() as int,
                    );
                    let shapes = lowering_blocks(e0, s0, *mir).1->Ok_0;
                    assert(lowered(*mir, lowering_blocks(e0, s0, *mir).0, shapes, wasmir));
                    assert forall|i: int|
                        0 <= i < wasmir.basic_blocks@.len() implies #[trigger] wasmir.basic_blocks@[i].instructions@.len()
                        < usize::MAX by {
                        assert(shapes[i].0.len() <= 2 * mir.basic_blocks@[i].statements@.len());
                        assert(crate::mir_lowering::insts_eqv(
                            shapes[i].0,
                            wasmir.basic_blocks@[i].instructions@,
                        ));
                    }
                }
                let ghost w0 = wasmir;
                let mut backend = BackendFactory::create_backend(
                    self.target.arch.as_str(),
                    build_profile,
                )?;
                let r = backend.compile(&mut wasmir, build_profile);
                assert(wasm_outcome(w0, wasmir, r));
                r
            },
            Err(m) => {
                let r = Err(BackendError::CompilationFailed(concat("MIR lowering failed: ", m.as_str())));
                assert(lowering_outcome(empty_env(), empty_state(), *mir, e, s, lr));
                r
            },
        }
    }

    /// Compiles a WasmIR function with the backend for the target and
    /// profile. The optimized function is left in `wasmir`.
    pub fn compile_wasmir(&mut self, wasmir: &mut WasmIR, build_profile: BuildProfile) -> (r: Result<
        CompilationResult,
        BackendError,
    >)
        requires
            sizes_fit(old(wasmir).basic_blocks@),
        ensures
            wasm_outcome(*old(wasmir), *final(wasmir), r),
    {
        let mut backend = BackendFactory::create_backend(self.target.arch.as_str(), build_profile)?;
        backend.compile(wasmir, build_profile)
    }

    /// The supported target triples.
    pub fn supported_targets() -> (r: Vec<&'static str>)
        ensures
            r@.len() == supported_target_names().len(),
            forall|k: int| 0 <= k < r@.len() ==> r@[k]@ == supported_target_names()[k],
    {
        let r: Vec<&'static str> = vec!["wasm32-unknown-unknown", "wasm32-unknown-emscripten"];
        proof {
            reveal_strlit("wasm32-unknown-unknown");
            reveal_strlit("wasm32-unknown-emscripten");
        }
        r
    }

    /// The available backends.
    pub fn available_backends() -> (r: Vec<&'static str>)
        ensures
            r@.len() == available_backend_names().len(),
            forall|k: int| 0 <= k < r@.len() ==> r@[k]@ == available_backend_names()[k],
    {
        BackendFactory::available_backends()
    }

    /// Whether a target triple is supported.
    pub fn is_target_supported(target: &str) -> (r: bool)
        ensures
            r == supported_target_names().contains(target@),
    {
        let targets = Self::supported_targets();
        let mut i: usize = 0;
        while i < targets.len()
            invariant
                0 <= i <= targets@.len(),
                targets@.len() == supported_target_names().len(),
                forall|k: int| 0 <= k < targets@.len() ==> targets@[k]@ == supported_target_names()[k],
                forall|k: int| 0 <= k < i ==> supported_target_names()[k] != target@,
            decreases targets@.len() - i,
        {
            if str_eq(targets[i], target) {
                assert(supported_target_names()[i as int] == target@);
                return true;
            }
            i = i + 1;
        }
        false
    }

    /// The recommended backend for the compiler's target and a profile.
    pub fn recommend_backend(&self, build_profile: BuildProfile) -> (r: Option<&'static str>)
        ensures
            match recommended_backend(self.arch(), build_profile) {
                Some(name) => r matches Some(s) && s@ == name,
                None => r is None,
            },
    {
        BackendFactory::recommend_backend(self.target.arch.as_str(), build_profile)
    }
}

/// Compiler configuration.
#[derive(Debug, Clone)]
pub struct CompilerConfig {
    pub optimization_level: OptimizationLevel,
    pub build_profile: BuildProfile,
    /// Target triple.
    pub target: String,
    /// Emit debug information.
    pub debug_info: bool,
    /// Link-time optimization.
    pub lto: bool,
    /// Path of a profile for profile-guided optimization.
    pub pgo: Option<String>,
}

impl Default for CompilerConfig {
    /// Standard optimization, development profile, the default target, debug
    /// information, no LTO and no profile.
    fn default() -> (r: CompilerConfig)
        ensures
            r.optimization_level == OptimizationLevel::Standard,
            r.build_profile == BuildProfile::Development,
            r.target@ == DEFAULT_TARGET@,
            r.debug_info,
            !r.lto,
            r.pgo is None,
    {
        CompilerConfig {
            optimization_level: OptimizationLevel::Standard,
            build_profile: BuildProfile::Development,
            target: DEFAULT_TARGET.to_string(),
            debug_info: true,
            lto: false,
            pgo: None,
        }
    }
}

/// The outcome of validating a configuration for a compiler of
/// architecture `arch`: the target must be supported, and a recommended
/// backend must be available.
pub open spec fn config_check(target: Seq<char>, arch: Seq<char>, profile: BuildProfile) -> Option<
    Seq<char>,
> {
    if !supported_target_names().contains(target) {
        Some("Unsupported target: "@ + target)
    } else {
        match recommended_backend(arch, profile) {
            Some(rec) => if available_backend_names().contains(rec) {
                None
            } else {
                Some("Recommended backend '"@ + rec + "' not available"@)
            },
            None => None,
        }
    }
}

/// The high-level compilation interface.
pub struct WasmRustFrontend {
    compiler: WasmRustCompiler,
    config: CompilerConfig,
}

impl WasmRustFrontend {
    /// The configuration.
    pub closed spec fn spec_config(&self) -> CompilerConfig {
        self.config
    }

    /// The architecture of the compiler (the configuration's target when
    /// the frontend was made).
    pub closed spec fn arch(&self) -> Seq<char> {
        self.compiler.arch()
    }

    /// A frontend for a configuration, its compiler targeting the
    /// configuration's target.
    pub fn new(config: CompilerConfig) -> (r: Result<WasmRustFrontend, String>)
        ensures
            r matches Ok(f) && f.spec_config() == config && f.arch() == config.target@,
    {
        let target = Target { arch: config.target.clone() };
        Ok(WasmRustFrontend { compiler: WasmRustCompiler::new(target), config })
    }

    /// Compiling a crate is not implemented.
    pub fn compile_crate(&mut self, crate_path: &str) -> (r: Result<CompilationResult, String>)
        ensures
            r matches Err(m) && m@ == "Crate compilation not yet implemented"@,
    {
        proof {
            reveal_strlit("Crate compilation not yet implemented");
        }
        Err(String::from_str("Crate compilation not yet implemented"))
    }

    /// Compiling a single file is not implemented.
    pub fn compile_file(&mut self, file_path: &str) -> (r: Result<CompilationResult, String>)
        ensures
            r matches Err(m) && m@ == "File compilation not yet implemented"@,
    {
        proof {
            reveal_strlit("File compilation not yet implemented");
        }
        Err(String::from_str("File compilation not yet implemented"))
    }

    /// Replaces the configuration (the compiler's target stays).
    pub fn update_config(&mut self, config: CompilerConfig)
        ensures
            final(self).spec_config() == config,
            final(self).arch() == old(self).arch(),
    {
        self.config = config;
    }

    /// The configuration.
    pub fn get_config(&self) -> (r: &CompilerConfig)
        ensures
            *r == self.spec_config(),
    {
        &self.config
    }

    /// Checks that the configured target is supported and that the backend
    /// recommended for it is available.
    pub fn validate_config(&self) -> (r: Result<(), String>)
        ensures
            match config_check(self.spec_config().target@, self.arch(), self.spec_config().build_profile) {
                None => r is Ok,
                Some(m) => r matches Err(x) && x@ == m,
            },
    {
        if !WasmRustCompiler::is_target_supported(self.config.target.as_str()) {
            return Err(concat("Unsupported target: ", self.config.target.as_str()));
        }
        match self.compiler.recommend_backend(self.config.build_profile) {
            Some(recommended) => {
                let available = WasmRustCompiler::available_backends();
                let mut found = false;
                let mut i: usize = 0;
                while i < available.len()
                    invariant
                        0 <= i <= available@.len(),
                        available@.len() == available_backend_names().len(),
                        forall|k: int| 0 <= k < available@.len() ==> available@[k]@ == available_backend_names()[k],
                        found == (exists|k: int| 0 <= k < i && available_backend_names()[k] == recommended@),
                    decreases available@.len() - i,
                {
                    let eq = str_eq(available[i], recommended);
                    proof {
                        assert(available@[i as int]@ == available_backend_names()[i as int]);
                        if eq {
                            assert(available_backend_names()[i as int] == recommended@);
                        } else {
                            assert(available_backend_names()[i as int] != recommended@);
                        }
                    }
                    if eq {
                        found = true;
                    }
                    i = i + 1;
                }
                if !found {
                    let mut m = concat("Recommended backend '", recommended);
                    m.append("' not available");
                    return Err(m);
                }
                proof {
                    let k = choose|k: int| 0 <= k < available@.len() && available_backend_names()[k] == recommended@;
                    assert(available_backend_names().contains(recommended@));
                }
                Ok(())
            },
            None => Ok(()),
        }
    }
}

} // verus!
