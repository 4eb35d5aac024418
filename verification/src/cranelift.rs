//! The Cranelift backend, for fast development builds: it emits
//! WebAssembly through the WasmIR code generator and keeps statistics.
use vstd::prelude::*;
use crate::backend::{BackendError, BackendFactory, BuildProfile, CompilationResult, Target};
use crate::wasm_codegen::{
    block_bytes, block_failure_text, blocks_bytes, blocks_failure_text, compiled_result, function_body_bytes, module_bytes, module_failure_text,
    WasmCodegen,
};
use crate::optimize::{pass_applied, passes_applied, same_header, OptimizationPass, WasmOptimizer};
use crate::layout::{
    block_ids, layout_applied, layout_positions, lemma_layout_positions_in_range, sizes_fit,
};
use crate::cfg::{depth_first_order, lemma_depth_first_order_shape, same_shape};
use crate::wasmir::{fault_text, BasicBlock, WasmIR};

verus! {

/// Compilation statistics.
#[derive(Debug, Clone, Copy, PartialEq, Eq, Structural)]
pub struct CompilationStats {
    pub functions_compiled: usize,
    pub instructions_generated: usize,
    pub optimization_passes: usize,
}

impl Default for CompilationStats {
    fn default() -> (r: CompilationStats)
        ensures
            r.functions_compiled == 0,
            r.instructions_generated == 0,
            r.optimization_passes == 0,
    {
        CompilationStats { functions_compiled: 0, instructions_generated: 0, optimization_passes: 0 }
    }
}

/// Code generation errors of the Cranelift backend.
#[derive(Debug)]
pub enum CodegenError {
    /// A construct the backend cannot lower.
    Unsupported(String),
}

/// The outcome of compiling `o` to WebAssembly: `n` is `o` after the
/// optimizer and the streaming layout, and `r` is the module emitted for
/// `n`, or the error that stopped it.
pub open spec fn wasm_outcome(o: WasmIR, n: WasmIR, r: Result<CompilationResult, BackendError>) -> bool {
    if let Some(f) = o.fault() {
        r matches Err(BackendError::CompilationFailed(m)) && m@ == "WasmIR validation failed: "@
            + fault_text(f) && n == o
    } else {
        &&& exists|m: WasmIR|
            {
                &&& passes_applied(WasmOptimizer::standard_passes(), 3, o, m)
                &&& #[trigger] layout_applied(m, n)
            }
        &&& match module_bytes(n) {
            Some(bytes) => r matches Ok(res) && compiled_result(res, bytes, n),
            None => r matches Err(BackendError::Unsupported(m)) && m@ == module_failure_text(n),
        }
    }
}

/// The parts of two functions that compilation reads agree: the header,
/// the local types, and each block's number, instructions and terminator.
pub open spec fn same_code(a: WasmIR, b: WasmIR) -> bool {
    &&& same_header(a, b)
    &&& a.locals@ == b.locals@
    &&& a.basic_blocks@.len() == b.basic_blocks@.len()
    &&& forall|i: int|
        #![trigger a.basic_blocks@[i]]
        0 <= i < a.basic_blocks@.len() ==> {
            &&& a.basic_blocks@[i].id == b.basic_blocks@[i].id
            &&& a.basic_blocks@[i].instructions@ == b.basic_blocks@[i].instructions@
            &&& a.basic_blocks@[i].terminator == b.basic_blocks@[i].terminator
        }
}

proof fn lemma_passes_same_code(o: WasmIR, k: int, m1: WasmIR, m2: WasmIR)
    requires
        0 <= k <= 3,
        passes_applied(WasmOptimizer::standard_passes(), k, o, m1),
        passes_applied(WasmOptimizer::standard_passes(), k, o, m2),
    ensures
        same_code(m1, m2),
    decreases k,
{
    let ps = WasmOptimizer::standard_passes();
    if k == 0 {
        assert(m1 == o && m2 == o);
    } else {
        let p1 = choose|m: WasmIR| passes_applied(ps, k - 1, o, m) && #[trigger] pass_applied(ps[k - 1], m, m1);
        let p2 = choose|m: WasmIR| passes_applied(ps, k - 1, o, m) && #[trigger] pass_applied(ps[k - 1], m, m2);
        lemma_passes_same_code(o, k - 1, p1, p2);
        if k == 1 {
            assert(p1 == o && p2 == o);
            assert(ps[0] == OptimizationPass::DeadCodeElimination);
            assert(m1.basic_blocks@ == m2.basic_blocks@);
        } else {
            let b1 = p1.basic_blocks@;
            let b2 = p2.basic_blocks@;
            assert forall|i: int| 0 <= i < m1.basic_blocks@.len() implies {
                &&& #[trigger] m1.basic_blocks@[i].id == m2.basic_blocks@[i].id
                &&& m1.basic_blocks@[i].instructions@ == m2.basic_blocks@[i].instructions@
                &&& m1.basic_blocks@[i].terminator == m2.basic_blocks@[i].terminator
            } by {
                assert(b1[i].instructions@ == b2[i].instructions@);
                let x1 = m1.basic_blocks@[i];
                let x2 = m2.basic_blocks@[i];
                if k == 2 {
                    assert(ps[1] == OptimizationPass::ConstantFolding);
                } else {
                    assert(ps[2] == OptimizationPass::InstructionSelection);
                }
            }
        }
    }
}

proof fn lemma_layout_same_code(m1: WasmIR, m2: WasmIR, n1: WasmIR, n2: WasmIR)
    requires
        same_code(m1, m2),
        layout_applied(m1, n1),
        layout_applied(m2, n2),
    ensures
        same_code(n1, n2),
{
    let b1 = m1.basic_blocks@;
    let b2 = m2.basic_blocks@;
    assert forall|i: int| 0 <= i < b1.len() implies #[trigger] b1[i].terminator == b2[i].terminator by {
        assert(b1[i].terminator == b2[i].terminator);
    }
    assert(same_shape(b1, b2));
    lemma_depth_first_order_shape(b1, b2);
    let ord = depth_first_order(b1);
    assert(block_ids(b1) =~= block_ids(b2)) by {
        assert forall|i: int| 0 <= i < b1.len() implies #[trigger] block_ids(b1)[i] == block_ids(b2)[i] by {
            assert(b1[i].id == b2[i].id);
        }
    }
    let pos = layout_positions(ord, block_ids(b1), ord.len() as int);
    lemma_layout_positions_in_range(ord, block_ids(b1), ord.len() as int);
    assert forall|t: int| 0 <= t < n1.basic_blocks@.len() implies {
        &&& #[trigger] n1.basic_blocks@[t].id == n2.basic_blocks@[t].id
        &&& n1.basic_blocks@[t].instructions@ == n2.basic_blocks@[t].instructions@
        &&& n1.basic_blocks@[t].terminator == n2.basic_blocks@[t].terminator
    } by {
        assert(n1.basic_blocks@[t] == b1[pos[t]]);
        assert(n2.basic_blocks@[t] == b2[pos[t]]);
        assert(0 <= pos[t] < b1.len());
        assert(b1[pos[t]].id == b2[pos[t]].id);
    }
}

proof fn lemma_blocks_bytes_same(s1: Seq<BasicBlock>, s2: Seq<BasicBlock>, k: int)
    requires
        0 <= k <= s1.len(),
        s1.len() == s2.len(),
        forall|i: int|
            #![trigger s1[i]]
            0 <= i < s1.len() ==> s1[i].instructions@ == s2[i].instructions@ && s1[i].terminator
                == s2[i].terminator,
    ensures
        blocks_bytes(s1, k) == blocks_bytes(s2, k),
    decreases k,
{
    if k > 0 {
        lemma_blocks_bytes_same(s1, s2, k - 1);
        assert(block_bytes(s1[k - 1]) == block_bytes(s2[k - 1]));
    }
}

proof fn lemma_blocks_failure_same(s1: Seq<BasicBlock>, s2: Seq<BasicBlock>, k: int)
    requires
        0 <= k <= s1.len(),
        s1.len() == s2.len(),
        forall|i: int|
            #![trigger s1[i]]
            0 <= i < s1.len() ==> s1[i].instructions@ == s2[i].instructions@ && s1[i].terminator
                == s2[i].terminator,
    ensures
        blocks_failure_text(s1, k) == blocks_failure_text(s2, k),
    decreases k,
{
    if k > 0 {
        lemma_blocks_failure_same(s1, s2, k - 1);
        lemma_blocks_bytes_same(s1, s2, k - 1);
        assert(block_failure_text(s1[k - 1]) == block_failure_text(s2[k - 1]));
    }
}

proof fn lemma_module_bytes_same(n1: WasmIR, n2: WasmIR)
    requires
        same_code(n1, n2),
    ensures
        module_bytes(n1) == module_bytes(n2),
        module_failure_text(n1) == module_failure_text(n2),
        n1.name == n2.name,
{
    lemma_blocks_bytes_same(n1.basic_blocks@, n2.basic_blocks@, n1.basic_blocks@.len() as int);
    lemma_blocks_failure_same(n1.basic_blocks@, n2.basic_blocks@, n1.basic_blocks@.len() as int);
    assert(function_body_bytes(n1) == function_body_bytes(n2));
}

/// Compilation is deterministic: two compilations of the same function end
/// in the same optimized code, fail alike, and when they succeed emit the
/// same module with the same symbols.
pub proof fn lemma_compilation_deterministic(
    o: WasmIR,
    n1: WasmIR,
    r1: Result<CompilationResult, BackendError>,
    n2: WasmIR,
    r2: Result<CompilationResult, BackendError>,
)
    requires
        wasm_outcome(o, n1, r1),
        wasm_outcome(o, n2, r2),
    ensures
        same_code(n1, n2),
        r1 is Ok <==> r2 is Ok,
        r1 matches Ok(a) ==> r2 matches Ok(b) && a.code@ == b.code@ && a.symbols@.len() == b.symbols@.len()
            && a.symbols@[0].0@ == b.symbols@[0].0@,
        r1 matches Err(BackendError::CompilationFailed(m1)) ==> r2 matches Err(
            BackendError::CompilationFailed(m2),
        ) && m1@ == m2@,
        r1 matches Err(BackendError::Unsupported(m1)) ==> r2 matches Err(BackendError::Unsupported(m2))
            && m1@ == m2@,
{
    if o.fault() is None {
        let m1 = choose|m: WasmIR|
            passes_applied(WasmOptimizer::standard_passes(), 3, o, m) && #[trigger] layout_applied(m, n1);
        let m2 = choose|m: WasmIR|
            passes_applied(WasmOptimizer::standard_passes(), 3, o, m) && #[trigger] layout_applied(m, n2);
        lemma_passes_same_code(o, 3, m1, m2);
        lemma_layout_same_code(m1, m2, n1, n2);
        lemma_module_bytes_same(n1, n2);
    } else {
        assert(n1 == o && n2 == o);
        assert forall|i: int| 0 <= i < n1.basic_blocks@.len() implies {
            &&& #[trigger] n1.basic_blocks@[i].id == n2.basic_blocks@[i].id
            &&& n1.basic_blocks@[i].instructions@ == n2.basic_blocks@[i].instructions@
            &&& n1.basic_blocks@[i].terminator == n2.basic_blocks@[i].terminator
        } by {}
    }
}

/// The Cranelift backend.
pub struct WasmRustCraneliftBackend {
    target: Target,
    codegen: WasmCodegen,
    stats: CompilationStats,
}

impl WasmRustCraneliftBackend {
    /// The target architecture.
    pub closed spec fn arch(&self) -> Seq<char> {
        self.target.arch@
    }

    /// The statistics so far.
    pub closed spec fn statistics(&self) -> CompilationStats {
        self.stats
    }

    /// The backend is ready to compile.
    pub closed spec fn wf(&self) -> bool {
        self.codegen.wf()
    }

    /// A backend for `target` with empty statistics.
    pub fn new(target: Target) -> (r: Result<WasmRustCraneliftBackend, CodegenError>)
        ensures
            r matches Ok(b) && b.wf() && b.arch() == target.arch@ && b.statistics()
                == CompilationStats::default_stats(),
    {
        Ok(
            WasmRustCraneliftBackend {
                target,
                codegen: WasmCodegen::new(),
                stats: CompilationStats::default(),
            },
        )
    }

    /// The statistics so far.
    pub fn get_stats(&self) -> (r: &CompilationStats)
        ensures
            *r == self.statistics(),
    {
        &self.stats
    }

    /// Counts one run of the verifiable optimizations on `func`.
    fn apply_verifiable_optimizations(&mut self, func: &WasmIR)
        requires
            old(self).statistics().optimization_passes < usize::MAX,
        ensures
            final(self).statistics() == (CompilationStats {
                optimization_passes: (old(self).statistics().optimization_passes + 1) as usize,
                ..old(self).statistics()
            }),
            final(self).wf() == old(self).wf(),
            final(self).arch() == old(self).arch(),
    {
        self.stats.optimization_passes = self.stats.optimization_passes + 1;
    }

    /// Compiles a function to a WebAssembly module; on success the
    /// function is counted as compiled and one optimization run is counted.
    /// The optimized function is left in `wasmir`.
    pub fn compile(&mut self, wasmir: &mut WasmIR, profile: BuildProfile) -> (r: Result<
        CompilationResult,
        BackendError,
    >)
        requires
            old(self).wf(),
            sizes_fit(old(wasmir).basic_blocks@),
            old(self).statistics().functions_compiled < usize::MAX,
            old(self).statistics().optimization_passes < usize::MAX,
        ensures
            final(self).wf(),
            final(self).arch() == old(self).arch(),
            wasm_outcome(*old(wasmir), *final(wasmir), r),
            r is Ok ==> final(self).statistics() == (CompilationStats {
                functions_compiled: (old(self).statistics().functions_compiled + 1) as usize,
                optimization_passes: (old(self).statistics().optimization_passes + 1) as usize,
                ..old(self).statistics()
            }),
            r is Err ==> final(self).statistics() == old(self).statistics(),
    {
        let result = self.codegen.compile(wasmir)?;
        self.apply_verifiable_optimizations(wasmir);
        self.stats.functions_compiled = self.stats.functions_compiled + 1;
        Ok(result)
    }

    /// Compiles a function and returns the module's bytes.
    pub fn compile_to_wasm(&mut self, wasmir: &mut WasmIR) -> (r: Result<Vec<u8>, BackendError>)
        requires
            old(self).wf(),
            sizes_fit(old(wasmir).basic_blocks@),
            old(self).statistics().functions_compiled < usize::MAX,
            old(self).statistics().optimization_passes < usize::MAX,
        ensures
            final(self).wf(),
            final(self).arch() == old(self).arch(),
            exists|res: Result<CompilationResult, BackendError>|
                #![trigger wasm_outcome(*old(wasmir), *final(wasmir), res)]
                wasm_outcome(*old(wasmir), *final(wasmir), res) && match res {
                    Ok(c) => r matches Ok(code) && code@ == c.code@,
                    Err(e) => r == Err::<Vec<u8>, BackendError>(e),
                },
    {
        let r = self.compile(wasmir, BuildProfile::Development);
        match r {
            Ok(res) => Ok(res.code),
            Err(e) => Err(e),
        }
    }
}

impl CompilationStats {
    /// All counts zero.
    pub open spec fn default_stats() -> CompilationStats {
        CompilationStats { functions_compiled: 0, instructions_generated: 0, optimization_passes: 0 }
    }
}

/// Runner of the backend's integration checks. The checks themselves drive
/// Cranelift code generation (`compile_function` returning machine code,
/// compilation timings), which this library does not have: its Cranelift
/// backend emits WebAssembly through [`WasmCodegen`]. So the runner only
/// exists to be created.
pub struct CraneliftIntegrationTest;

impl CraneliftIntegrationTest {
    /// A runner.
    pub fn new() -> (r: CraneliftIntegrationTest)
        ensures
            r == CraneliftIntegrationTest,
    {
        CraneliftIntegrationTest
    }
}

impl BackendFactory {
    /// Creates the backend for a target architecture and profile. This build
    /// has no LLVM backend, so every profile gets the Cranelift backend.
    pub fn create_backend(target: &str, profile: BuildProfile) -> (r: Result<
        WasmRustCraneliftBackend,
        BackendError,
    >)
        ensures
            r matches Ok(b) && b.wf() && b.arch() == target@ && b.statistics()
                == CompilationStats::default_stats(),
    {
        let t = Target { arch: target.to_string() };
        match WasmRustCraneliftBackend::new(t) {
            Ok(b) => Ok(b),
            Err(CodegenError::Unsupported(m)) => Err(BackendError::Unsupported(m)),
        }
    }
}

} // verus!
