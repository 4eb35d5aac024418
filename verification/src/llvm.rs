//! The LLVM backend, for optimized release builds with profile-guided
//! optimization. Its code generation emits a fixed module header; what it
//! computes is the symbol table and the relocations of the function's
//! calls, and the optimization level of each build profile.
use vstd::prelude::*;
use crate::backend::{
    current_time, Backend, BackendCapabilities, BackendError, BuildProfile, CompilationMetadata,
    CompilationResult, OptimizationLevel, Relocation, RelocationKind, Target,
};
use crate::wasmir::{Instruction, WasmIR};
use crate::text::{concat, decimal, numbered, str_eq};

verus! {

/// LLVM-specific optimization flags.
#[derive(Debug, Clone, Copy, PartialEq, Eq, Structural)]
pub struct LLVMOptimizationFlags {
    pub aggressive_inlining: bool,
    pub pgo: bool,
    pub lto: bool,
    pub wasm_optimizations: bool,
    pub loop_unrolling: bool,
    pub vectorization: bool,
}

impl Default for LLVMOptimizationFlags {
    /// Every optimization enabled.
    fn default() -> (r: LLVMOptimizationFlags)
        ensures
            r.aggressive_inlining && r.pgo && r.lto && r.wasm_optimizations && r.loop_unrolling
                && r.vectorization,
    {
        LLVMOptimizationFlags {
            aggressive_inlining: true,
            pgo: true,
            lto: true,
            wasm_optimizations: true,
            loop_unrolling: true,
            vectorization: true,
        }
    }
}

/// A symbol as plain values.
pub type SymbolView = (Seq<char>, u64);

/// A symbol table as plain values.
pub open spec fn symbols_view(v: Seq<(String, u64)>) -> Seq<SymbolView> {
    v.map_values(|p: (String, u64)| (p.0@, p.1))
}

/// No name occurs twice.
pub open spec fn keys_unique(s: Seq<SymbolView>) -> bool {
    forall|i: int, j: int| 0 <= i < j < s.len() ==> s[i].0 != s[j].0
}

/// `s` with `k` bound to `v`: the entry for `k` is replaced, or a new entry
/// appended.
pub open spec fn upsert(s: Seq<SymbolView>, k: Seq<char>, v: u64) -> Seq<SymbolView> {
    if exists|i: int| 0 <= i < s.len() && s[i].0 == k {
        s.update(choose|i: int| 0 <= i < s.len() && s[i].0 == k, (k, v))
    } else {
        s.push((k, v))
    }
}

/// Binds `name` to `value` in a symbol table.
pub fn insert_symbol(symbols: &mut Vec<(String, u64)>, name: String, value: u64)
    requires
        keys_unique(symbols_view(old(symbols)@)),
    ensures
        keys_unique(symbols_view(final(symbols)@)),
        symbols_view(final(symbols)@) == upsert(symbols_view(old(symbols)@), name@, value),
{
    let ghost sv = symbols_view(symbols@);
    let n = symbols.len();
    let mut i: usize = 0;
    while i < n
        invariant
            0 <= i <= n,
            n == symbols@.len(),
            sv == symbols_view(symbols@),
            symbols@ == old(symbols)@,
            keys_unique(sv),
            forall|j: int| 0 <= j < i ==> sv[j].0 != name@,
        decreases n - i,
    {
        if str_eq(symbols[i].0.as_str(), name.as_str()) {
            let ghost k = name@;
            symbols.set(i, (name, value));
            proof {
                assert(sv[i as int].0 == k);
                assert(exists|j: int| 0 <= j < sv.len() && sv[j].0 == k);
                let c = choose|j: int| 0 <= j < sv.len() && sv[j].0 == k;
                assert(c == i);
                assert(symbols_view(symbols@) =~= sv.update(i as int, (k, value)));
                assert(upsert(sv, k, value) == sv.update(i as int, (k, value)));
            }
            return;
        }
        i = i + 1;
    }
    let ghost k = name@;
    symbols.push((name, value));
    assert(symbols_view(symbols@) =~= sv.push((k, value)));
}

/// The function references of the calls among the first `k` instructions.
pub open spec fn call_refs(s: Seq<Instruction>, k: int) -> Seq<u32>
    decreases k,
{
    if k <= 0 {
        Seq::empty()
    } else {
        match s[k - 1] {
            Instruction::Call { func_ref, .. } => call_refs(s, k - 1).push(func_ref),
            _ => call_refs(s, k - 1),
        }
    }
}

/// The symbol of an external function.
pub open spec fn external_symbol(f: u32) -> Seq<char> {
    "external_function_"@ + decimal(f as nat)
}

/// The symbol table after the function's own symbol (at `size`) and the
/// first `k` called functions (at 0).
pub open spec fn symbols_after(name: Seq<char>, size: u64, refs: Seq<u32>, k: int) -> Seq<
    SymbolView,
>
    decreases k,
{
    if k <= 0 {
        seq![(name, size)]
    } else {
        upsert(symbols_after(name, size, refs, k - 1), external_symbol(refs[k - 1]), 0)
    }
}

/// `r` is the relocation of a call to `f`.
pub open spec fn call_relocation(r: Relocation, f: u32) -> bool {
    &&& r.kind == RelocationKind::FunctionCall
    &&& r.offset == 0
    &&& r.symbol@ == external_symbol(f)
    &&& r.addend == 0
}

/// The optimization level LLVM uses for a profile.
pub open spec fn optimization_level_for(profile: BuildProfile, pgo: bool) -> OptimizationLevel {
    match profile {
        BuildProfile::Development => OptimizationLevel::Basic,
        BuildProfile::Freestanding => OptimizationLevel::Unoptimized,
        BuildProfile::Release => if pgo {
            OptimizationLevel::PGO
        } else {
            OptimizationLevel::Aggressive
        },
    }
}

/// The module LLVM code generation emits.
pub open spec fn llvm_machine_code() -> Seq<u8> {
    seq![
        0x00u8, 0x61, 0x73, 0x6d, 0x00, 0x01, 0x00, 0x00,
        0x00, 0x00, 0x00, 0x00, 0x00, 0x00, 0x00, 0x00,
    ]
}

/// The capabilities of the LLVM backend: all of them.
pub open spec fn llvm_capabilities() -> BackendCapabilities {
    BackendCapabilities {
        thin_monomorphization: true,
        streaming_layout: true,
        pgo_support: true,
        component_model: true,
        wasm_optimizations: true,
        linear_types: true,
    }
}

/// The optimization levels of the LLVM backend: all of them.
pub open spec fn llvm_optimization_levels() -> Seq<OptimizationLevel> {
    seq![
        OptimizationLevel::Unoptimized,
        OptimizationLevel::Basic,
        OptimizationLevel::Standard,
        OptimizationLevel::Aggressive,
        OptimizationLevel::PGO,
    ]
}

/// The LLVM backend.
pub struct WasmRustLLVMBackend {
    target: Target,
    optimization_flags: LLVMOptimizationFlags,
    pgo_data: Option<Vec<u8>>,
}

impl WasmRustLLVMBackend {
    /// The target architecture.
    pub closed spec fn arch(&self) -> Seq<char> {
        self.target.arch@
    }

    /// The optimization flags.
    pub closed spec fn flags(&self) -> LLVMOptimizationFlags {
        self.optimization_flags
    }

    /// The loaded profile data, if any.
    pub closed spec fn profile(&self) -> Option<Seq<u8>> {
        match self.pgo_data {
            Some(d) => Some(d@),
            None => None,
        }
    }

    /// A backend for `target` with every optimization enabled and no
    /// profile loaded.
    pub fn new(target: Target) -> (r: Result<WasmRustLLVMBackend, BackendError>)
        ensures
            r matches Ok(b) && b.arch() == target.arch@ && b.flags()
                == LLVMOptimizationFlags::default_flags() && b.profile() is None,
    {
        Ok(
            WasmRustLLVMBackend {
                target,
                optimization_flags: LLVMOptimizationFlags::default(),
                pgo_data: None,
            },
        )
    }

    /// Takes the result of reading a profile file: its bytes are kept, or a
    /// read error becomes `ResourceExhausted`.
    pub fn load_pgo_profile(&mut self, read: Result<Vec<u8>, String>) -> (r: Result<(), BackendError>)
        ensures
            final(self).arch() == old(self).arch(),
            final(self).flags() == old(self).flags(),
            match read {
                Ok(d) => r is Ok && final(self).profile() == Some(d@),
                Err(e) => (r matches Err(BackendError::ResourceExhausted(m)) && m@
                    == "Failed to read PGO profile: "@ + e@) && final(self).profile()
                    == old(self).profile(),
            },
    {
        match read {
            Ok(data) => {
                self.pgo_data = Some(data);
                Ok(())
            },
            Err(e) => Err(
                BackendError::ResourceExhausted(concat("Failed to read PGO profile: ", e.as_str())),
            ),
        }
    }

    /// The optimization level for a build profile.
    pub fn get_optimization_level(&self, profile: BuildProfile) -> (r: OptimizationLevel)
        ensures
            r == optimization_level_for(profile, self.flags().pgo),
    {
        match profile {
            BuildProfile::Development => OptimizationLevel::Basic,
            BuildProfile::Freestanding => OptimizationLevel::Unoptimized,
            BuildProfile::Release => if self.optimization_flags.pgo {
                OptimizationLevel::PGO
            } else {
                OptimizationLevel::Aggressive
            },
        }
    }

    /// The module emitted for a function.
    fn llvm_ir_to_machine_code(&self) -> (r: Vec<u8>)
        ensures
            r@ == llvm_machine_code(),
    {
        let r: Vec<u8> = vec![
            0x00, 0x61, 0x73, 0x6d, 0x00, 0x01, 0x00, 0x00,
            0x00, 0x00, 0x00, 0x00, 0x00, 0x00, 0x00, 0x00,
        ];
        assert(r@ =~= llvm_machine_code());
        r
    }

    /// The symbol table and relocations: the function at the end of its
    /// code, and each called function at 0 with a call relocation.
    pub fn generate_relocations(&self, wasmir: &WasmIR, machine_code: &Vec<u8>) -> (r: Result<
        (Vec<(String, u64)>, Vec<Relocation>),
        BackendError,
    >)
        ensures
            r matches Ok(p) && {
                let refs = call_refs(wasmir.instruction_seq(), wasmir.instruction_seq().len() as int);
                &&& symbols_view(p.0@) == symbols_after(
                    wasmir.name@,
                    machine_code@.len() as u64,
                    refs,
                    refs.len() as int,
                )
                &&& p.1@.len() == refs.len()
                &&& forall|i: int| #![trigger p.1@[i]] 0 <= i < refs.len() ==> call_relocation(p.1@[i], refs[i])
            },
    {
        let mut symbols: Vec<(String, u64)> = Vec::new();
        let mut relocations: Vec<Relocation> = Vec::new();
        insert_symbol(&mut symbols, wasmir.name.clone(), machine_code.len() as u64);
        assert(symbols_view(symbols@) =~= seq![(wasmir.name@, machine_code@.len() as u64)]);
        let insts = wasmir.all_instructions();
        let ghost seq_all = wasmir.instruction_seq();
        let n = insts.len();
        let mut i: usize = 0;
        while i < n
            invariant
                0 <= i <= n,
                n == insts@.len(),
                n == seq_all.len(),
                seq_all == wasmir.instruction_seq(),
                forall|k: int| 0 <= k < n ==> *insts@[k] == seq_all[k],
                keys_unique(symbols_view(symbols@)),
                symbols_view(symbols@) == symbols_after(
                    wasmir.name@,
                    machine_code@.len() as u64,
                    call_refs(seq_all, i as int),
                    call_refs(seq_all, i as int).len() as int,
                ),
                relocations@.len() == call_refs(seq_all, i as int).len(),
                forall|k: int|
                    #![trigger relocations@[k]]
                    0 <= k < relocations@.len() ==> call_relocation(
                        relocations@[k],
                        call_refs(seq_all, i as int)[k],
                    ),
            decreases n - i,
        {
            let inst = insts[i];
            match inst {
                Instruction::Call { func_ref, .. } => {
                    let ghost refs = call_refs(seq_all, i as int);
                    let ghost refs2 = call_refs(seq_all, i + 1);
                    assert(refs2 == refs.push(*func_ref));
                    proof {
                        lemma_symbols_after_prefix(
                            wasmir.name@,
                            machine_code@.len() as u64,
                            refs,
                            refs2,
                            refs.len() as int,
                        );
                    }
                    insert_symbol(&mut symbols, numbered("external_function_", *func_ref), 0);
                    relocations.push(
                        Relocation {
                            kind: RelocationKind::FunctionCall,
                            offset: 0,
                            symbol: numbered("external_function_", *func_ref),
                            addend: 0,
                        },
                    );
                },
                _ => {},
            }
            i = i + 1;
        }
        Ok((symbols, relocations))
    }
}

/// The symbol table after `k` calls depends only on the first `k` refs.
proof fn lemma_symbols_after_prefix(
    name: Seq<char>,
    size: u64,
    a: Seq<u32>,
    b: Seq<u32>,
    k: int,
)
    requires
        0 <= k <= a.len(),
        k <= b.len(),
        forall|i: int| 0 <= i < k ==> a[i] == b[i],
    ensures
        symbols_after(name, size, a, k) == symbols_after(name, size, b, k),
    decreases k,
{
    if k > 0 {
        lemma_symbols_after_prefix(name, size, a, b, k - 1);
    }
}

impl LLVMOptimizationFlags {
    /// Every optimization enabled.
    pub open spec fn default_flags() -> LLVMOptimizationFlags {
        LLVMOptimizationFlags {
            aggressive_inlining: true,
            pgo: true,
            lto: true,
            wasm_optimizations: true,
            loop_unrolling: true,
            vectorization: true,
        }
    }
}

impl Backend for WasmRustLLVMBackend {
    open spec fn spec_capabilities(&self) -> BackendCapabilities {
        llvm_capabilities()
    }

    open spec fn spec_supported_optimizations(&self) -> Seq<OptimizationLevel> {
        llvm_optimization_levels()
    }

    /// Compiles a function: the fixed module, the symbol table and
    /// relocations of its calls, and metadata naming the target, the
    /// profile and its optimization level.
    fn compile(&mut self, wasmir: &WasmIR, profile: BuildProfile) -> (r: Result<
        CompilationResult,
        BackendError,
    >)
        ensures
            *final(self) == *old(self),
            r matches Ok(res) && {
                let refs = call_refs(wasmir.instruction_seq(), wasmir.instruction_seq().len() as int);
                &&& res.code@ == llvm_machine_code()
                &&& symbols_view(res.symbols@) == symbols_after(
                    wasmir.name@,
                    16,
                    refs,
                    refs.len() as int,
                )
                &&& res.relocations@.len() == refs.len()
                &&& forall|i: int|
                    #![trigger res.relocations@[i]]
                    0 <= i < refs.len() ==> call_relocation(res.relocations@[i], refs[i])
                &&& res.metadata.target@ == old(self).arch()
                &&& res.metadata.optimization_level == optimization_level_for(
                    profile,
                    old(self).flags().pgo,
                )
                &&& res.metadata.build_profile == profile
            },
    {
        let machine_code = self.llvm_ir_to_machine_code();
        let (symbols, relocations) = match self.generate_relocations(wasmir, &machine_code) {
            Ok(p) => p,
            Err(e) => {
                return Err(e);
            },
        };
        Ok(
            CompilationResult {
                code: machine_code,
                symbols,
                relocations,
                metadata: CompilationMetadata {
                    target: self.target.arch.clone(),
                    optimization_level: self.get_optimization_level(profile),
                    build_profile: profile,
                    timestamp: current_time(),
                },
            },
        )
    }

    /// Every optimization level.
    fn supported_optimizations(&self) -> (r: Vec<OptimizationLevel>) {
        let r: Vec<OptimizationLevel> = vec![
            OptimizationLevel::Unoptimized,
            OptimizationLevel::Basic,
            OptimizationLevel::Standard,
            OptimizationLevel::Aggressive,
            OptimizationLevel::PGO,
        ];
        assert(r@ =~= llvm_optimization_levels());
        r
    }

    /// Every capability.
    fn capabilities(&self) -> (r: BackendCapabilities) {
        BackendCapabilities {
            thin_monomorphization: true,
            streaming_layout: true,
            pgo_support: true,
            component_model: true,
            wasm_optimizations: true,
            linear_types: true,
        }
    }

    /// Forgets the loaded profile.
    fn reset(&mut self)
        ensures
            final(self).profile() is None,
            final(self).arch() == old(self).arch(),
            final(self).flags() == old(self).flags(),
    {
        self.pgo_data = None;
    }
}

} // verus!
