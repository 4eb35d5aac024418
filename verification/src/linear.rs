//! Analyses that enforce the "exactly once" use of linear values.
//!
//! A local is linear when its declared type is (`ExternRef`, `FuncRef`).
//! The drop scan follows each linear local through the function's
//! statements: storage liveness activates it, a move consumes it, and it is
//! an error to let an active local die, to use a consumed one, to consume
//! it twice, or to return with it still active.
use vstd::prelude::*;
use crate::mir_lowering::{
    is_linear, place_root, MirBasicBlock, MirFunction, MirLocalDecl, MirOperand, MirPlace,
    MirRvalue, MirStatement, MirTerminator,
};

verus! {

/// State of a linear local during the drop scan.
#[derive(Debug, Clone, Copy, PartialEq, Eq, Structural)]
pub enum LinearVarState {
    Uninitialized,
    Active,
    Consumed,
}

/// Violations of linearity, by local.
#[derive(Debug, Clone, Copy, PartialEq, Eq, Structural)]
pub enum LinearTypeError {
    /// An active linear local's storage ends.
    ImplicitDrop { var: u32 },
    /// A linear local is still active when the function returns.
    UnconsumedReturn { var: u32 },
    /// A consumed linear local is used.
    UseAfterConsume { var: u32 },
    /// A consumed linear local is consumed again.
    DoubleConsume { var: u32 },
}

/// LocalStates locals with their states, each local listed once.
pub type LocalStates = Seq<(u32, LinearVarState)>;

/// The state of `l`, if it is tracked.
pub open spec fn lookup(m: LocalStates, l: u32) -> Option<LinearVarState> {
    if exists|i: int| 0 <= i < m.len() && m[i].0 == l {
        Some(m[choose|i: int| 0 <= i < m.len() && m[i].0 == l].1)
    } else {
        None
    }
}

/// `m` with `l` tracked in state `st` (its entry replaced, or appended).
pub open spec fn assign(m: LocalStates, l: u32, st: LinearVarState) -> LocalStates {
    if exists|i: int| 0 <= i < m.len() && m[i].0 == l {
        m.update(choose|i: int| 0 <= i < m.len() && m[i].0 == l, (l, st))
    } else {
        m.push((l, st))
    }
}

/// No local is tracked twice.
pub open spec fn tracked_unique(m: LocalStates) -> bool {
    forall|i: int, j: int| 0 <= i < j < m.len() ==> m[i].0 != m[j].0
}

/// A place that is a local without projection.
pub open spec fn plain_local(p: MirPlace) -> Option<u32> {
    match p {
        MirPlace::Local(l) => Some(l),
        _ => None,
    }
}

/// Whether local `l` is declared with a linear type.
pub open spec fn local_is_linear(decls: Seq<MirLocalDecl>, l: u32) -> bool {
    l < decls.len() && is_linear(decls[l as int].ty)
}

/// A scan state: the tracked locals and the errors found so far.
pub type ScanState = (LocalStates, Seq<LinearTypeError>);

/// Consuming `l`: an active local becomes consumed; consuming a consumed
/// one is an error.
pub open spec fn consume(s: ScanState, l: u32) -> ScanState {
    match lookup(s.0, l) {
        Some(LinearVarState::Active) => (assign(s.0, l, LinearVarState::Consumed), s.1),
        Some(LinearVarState::Consumed) => (s.0, s.1.push(LinearTypeError::DoubleConsume { var: l })),
        _ => s,
    }
}

/// Using an operand: moving an active local consumes it; using a consumed
/// local is an error.
pub open spec fn use_operand(s: ScanState, op: MirOperand) -> ScanState {
    let (p, moved) = match op {
        MirOperand::Copy(p) => (Some(*p), false),
        MirOperand::Move(p) => (Some(*p), true),
        MirOperand::Constant(_) => (None, false),
    };
    match p {
        Some(place) => match plain_local(place) {
            Some(l) => match lookup(s.0, l) {
                Some(LinearVarState::Active) => if moved {
                    consume(s, l)
                } else {
                    s
                },
                Some(LinearVarState::Consumed) => (
                    s.0,
                    s.1.push(LinearTypeError::UseAfterConsume { var: l }),
                ),
                _ => s,
            },
            None => s,
        },
        None => s,
    }
}

/// Using the operands of a right-hand side.
pub open spec fn use_rvalue(s: ScanState, rv: MirRvalue) -> ScanState {
    match rv {
        MirRvalue::Use(op) => use_operand(s, op),
        MirRvalue::BinaryOp(_, l, r) => use_operand(use_operand(s, l), r),
        MirRvalue::UnaryOp(_, op) => use_operand(s, op),
        _ => s,
    }
}

/// Scanning a statement.
pub open spec fn scan_statement(decls: Seq<MirLocalDecl>, s: ScanState, st: MirStatement) -> ScanState {
    match st {
        MirStatement::StorageLive(l) => match lookup(s.0, l) {
            Some(_) => (assign(s.0, l, LinearVarState::Active), s.1),
            None => s,
        },
        MirStatement::StorageDead(l) => match lookup(s.0, l) {
            Some(LinearVarState::Active) => (s.0, s.1.push(LinearTypeError::ImplicitDrop { var: l })),
            Some(LinearVarState::Consumed) => (assign(s.0, l, LinearVarState::Uninitialized), s.1),
            _ => s,
        },
        MirStatement::Assign(place, rv) => {
            let s1 = match plain_local(place) {
                Some(l) => if local_is_linear(decls, l) {
                    consume(s, l)
                } else {
                    s
                },
                None => s,
            };
            use_rvalue(s1, rv)
        },
        MirStatement::Nop => s,
    }
}

/// Using the first `k` call arguments.
pub open spec fn use_args(s: ScanState, args: Seq<MirOperand>, k: int) -> ScanState
    decreases k,
{
    if k <= 0 {
        s
    } else {
        use_operand(use_args(s, args, k - 1), args[k - 1])
    }
}

/// Scanning a terminator: the arguments of a call are used.
pub open spec fn scan_terminator(s: ScanState, t: MirTerminator) -> ScanState {
    match t {
        MirTerminator::Call { args, .. } => use_args(s, args@, args@.len() as int),
        _ => s,
    }
}

/// Scanning the first `k` statements of a block.
pub open spec fn scan_statements(decls: Seq<MirLocalDecl>, s: ScanState, sts: Seq<MirStatement>, k: int) -> ScanState
    decreases k,
{
    if k <= 0 {
        s
    } else {
        scan_statement(decls, scan_statements(decls, s, sts, k - 1), sts[k - 1])
    }
}

/// Scanning a block: its statements, then its terminator.
pub open spec fn scan_block(decls: Seq<MirLocalDecl>, s: ScanState, b: MirBasicBlock) -> ScanState {
    scan_terminator(
        scan_statements(decls, s, b.statements@, b.statements@.len() as int),
        b.terminator,
    )
}

/// Scanning the first `k` blocks, in order.
pub open spec fn scan_blocks(decls: Seq<MirLocalDecl>, s: ScanState, bs: Seq<MirBasicBlock>, k: int) -> ScanState
    decreases k,
{
    if k <= 0 {
        s
    } else {
        scan_block(decls, scan_blocks(decls, s, bs, k - 1), bs[k - 1])
    }
}

/// Tracking the linear locals among the first `k` declarations, each
/// (again) uninitialized.
pub open spec fn discover(m: LocalStates, decls: Seq<MirLocalDecl>, k: int) -> LocalStates
    decreases k,
{
    if k <= 0 {
        m
    } else {
        let m1 = discover(m, decls, k - 1);
        if is_linear(decls[k - 1].ty) {
            assign(m1, (k - 1) as u32, LinearVarState::Uninitialized)
        } else {
            m1
        }
    }
}

/// An error for each of the first `k` tracked locals still active.
pub open spec fn unconsumed(m: LocalStates, k: int) -> Seq<LinearTypeError>
    decreases k,
{
    if k <= 0 {
        Seq::empty()
    } else if m[k - 1].1 == LinearVarState::Active {
        unconsumed(m, k - 1).push(LinearTypeError::UnconsumedReturn { var: m[k - 1].0 })
    } else {
        unconsumed(m, k - 1)
    }
}

/// The index of `l` among the tracked locals.
fn find_local(m: &Vec<(u32, LinearVarState)>, l: u32) -> (r: Option<usize>)
    requires
        tracked_unique(m@),
    ensures
        match r {
            Some(i) => i < m@.len() && m@[i as int].0 == l && (choose|j: int|
                0 <= j < m@.len() && m@[j].0 == l) == i,
            None => !(exists|j: int| 0 <= j < m@.len() && m@[j].0 == l),
        },
{
    let mut i: usize = 0;
    while i < m.len()
        invariant
            0 <= i <= m@.len(),
            tracked_unique(m@),
            forall|j: int| 0 <= j < i ==> m@[j].0 != l,
        decreases m@.len() - i,
    {
        if m[i].0 == l {
            assert(exists|j: int| 0 <= j < m@.len() && m@[j].0 == l);
            return Some(i);
        }
        i = i + 1;
    }
    None
}

/// The state of a tracked local.
fn get_state(m: &Vec<(u32, LinearVarState)>, l: u32) -> (r: Option<LinearVarState>)
    requires
        tracked_unique(m@),
    ensures
        r == lookup(m@, l),
{
    match find_local(m, l) {
        Some(i) => Some(m[i].1),
        None => None,
    }
}

/// Tracks `l` in state `st`.
fn set_state(m: &mut Vec<(u32, LinearVarState)>, l: u32, st: LinearVarState)
    requires
        tracked_unique(old(m)@),
    ensures
        tracked_unique(final(m)@),
        final(m)@ == assign(old(m)@, l, st),
{
    match find_local(m, l) {
        Some(i) => {
            m.set(i, (l, st));
        },
        None => {
            m.push((l, st));
        },
    }
}

/// The drop scan: follows the linear locals of a function through its
/// blocks in order and reports every violation.
pub struct LinearObjectDropScan {
    live_linear_vars: Vec<(u32, LinearVarState)>,
    errors: Vec<LinearTypeError>,
}

impl LinearObjectDropScan {
    /// The tracked locals with their states.
    pub closed spec fn local_states(&self) -> LocalStates {
        self.live_linear_vars@
    }

    /// The scan's invariant: each local is tracked once.
    pub closed spec fn wf(&self) -> bool {
        tracked_unique(self.live_linear_vars@)
    }

    /// The tracked locals and the errors not yet reported.
    pub closed spec fn scan_state(&self) -> ScanState {
        (self.live_linear_vars@, self.errors@)
    }

    /// A scan tracking nothing.
    pub fn new() -> (r: LinearObjectDropScan)
        ensures
            r.wf(),
            r.local_states() == Seq::<(u32, LinearVarState)>::empty(),
    {
        LinearObjectDropScan { live_linear_vars: Vec::new(), errors: Vec::new() }
    }

    fn consume_linear_var(&mut self, local: u32)
        requires
            old(self).wf(),
        ensures
            final(self).wf(),
            final(self).scan_state() == consume(old(self).scan_state(), local),
    {
        match get_state(&self.live_linear_vars, local) {
            Some(LinearVarState::Active) => {
                set_state(&mut self.live_linear_vars, local, LinearVarState::Consumed);
            },
            Some(LinearVarState::Consumed) => {
                self.errors.push(LinearTypeError::DoubleConsume { var: local });
            },
            _ => {},
        }
    }

    fn analyze_operand(&mut self, operand: &MirOperand)
        requires
            old(self).wf(),
        ensures
            final(self).wf(),
            final(self).scan_state() == use_operand(old(self).scan_state(), *operand),
    {
        let (place, moved) = match operand {
            MirOperand::Copy(p) => (p, false),
            MirOperand::Move(p) => (p, true),
            MirOperand::Constant(_) => {
                return;
            },
        };
        match &**place {
            MirPlace::Local(local) => match get_state(&self.live_linear_vars, *local) {
                Some(LinearVarState::Active) => {
                    if moved {
                        self.consume_linear_var(*local);
                    }
                },
                Some(LinearVarState::Consumed) => {
                    self.errors.push(LinearTypeError::UseAfterConsume { var: *local });
                },
                _ => {},
            },
            _ => {},
        }
    }

    fn analyze_rvalue(&mut self, rvalue: &MirRvalue)
        requires
            old(self).wf(),
        ensures
            final(self).wf(),
            final(self).scan_state() == use_rvalue(old(self).scan_state(), *rvalue),
    {
        match rvalue {
            MirRvalue::Use(operand) => self.analyze_operand(operand),
            MirRvalue::BinaryOp(_, lhs, rhs) => {
                self.analyze_operand(lhs);
                self.analyze_operand(rhs);
            },
            MirRvalue::UnaryOp(_, operand) => self.analyze_operand(operand),
            _ => {},
        }
    }

    fn analyze_statement(&mut self, decls: &Vec<MirLocalDecl>, statement: &MirStatement)
        requires
            old(self).wf(),
        ensures
            final(self).wf(),
            final(self).scan_state() == scan_statement(decls@, old(self).scan_state(), *statement),
    {
        match statement {
            MirStatement::StorageLive(local) => {
                match get_state(&self.live_linear_vars, *local) {
                    Some(_) => set_state(&mut self.live_linear_vars, *local, LinearVarState::Active),
                    None => {},
                }
            },
            MirStatement::StorageDead(local) => {
                match get_state(&self.live_linear_vars, *local) {
                    Some(LinearVarState::Active) => {
                        self.errors.push(LinearTypeError::ImplicitDrop { var: *local });
                    },
                    Some(LinearVarState::Consumed) => {
                        set_state(&mut self.live_linear_vars, *local, LinearVarState::Uninitialized);
                    },
                    _ => {},
                }
            },
            MirStatement::Assign(place, rvalue) => {
                match place {
                    MirPlace::Local(local) => {
                        if (*local as usize) < decls.len() && is_linear_type(&decls[*local as usize].ty) {
                            self.consume_linear_var(*local);
                        }
                    },
                    _ => {},
                }
                self.analyze_rvalue(rvalue);
            },
            MirStatement::Nop => {},
        }
    }

    fn analyze_terminator(&mut self, terminator: &MirTerminator)
        requires
            old(self).wf(),
        ensures
            final(self).wf(),
            final(self).scan_state() == scan_terminator(old(self).scan_state(), *terminator),
    {
        match terminator {
            MirTerminator::Call { args, .. } => {
                let n = args.len();
                let mut i: usize = 0;
                while i < n
                    invariant
                        0 <= i <= n,
                        n == args@.len(),
                        self.wf(),
                        self.scan_state() == use_args(old(self).scan_state(), args@, i as int),
                    decreases n - i,
                {
                    self.analyze_operand(&args[i]);
                    i = i + 1;
                }
            },
            _ => {},
        }
    }

    fn analyze_basic_block(&mut self, decls: &Vec<MirLocalDecl>, block: &MirBasicBlock)
        requires
            old(self).wf(),
        ensures
            final(self).wf(),
            final(self).scan_state() == scan_block(decls@, old(self).scan_state(), *block),
    {
        let n = block.statements.len();
        let mut i: usize = 0;
        while i < n
            invariant
                0 <= i <= n,
                n == block.statements@.len(),
                self.wf(),
                self.scan_state() == scan_statements(
                    decls@,
                    old(self).scan_state(),
                    block.statements@,
                    i as int,
                ),
            decreases n - i,
        {
            self.analyze_statement(decls, &block.statements[i]);
            i = i + 1;
        }
        self.analyze_terminator(&block.terminator);
    }

    /// Scans a function: tracks its linear locals (each uninitialized),
    /// follows its blocks in order, then reports the locals still active.
    /// The errors are returned in the order found; the tracked states are
    /// kept.
    pub fn analyze(&mut self, body: &MirFunction) -> (r: Vec<LinearTypeError>)
        requires
            old(self).wf(),
            body.local_decls@.len() <= u32::MAX + 1,
        ensures
            final(self).wf(),
            ({
                let m1 = discover(
                    old(self).local_states(),
                    body.local_decls@,
                    body.local_decls@.len() as int,
                );
                let s = scan_blocks(
                    body.local_decls@,
                    (m1, old(self).scan_state().1),
                    body.basic_blocks@,
                    body.basic_blocks@.len() as int,
                );
                &&& final(self).local_states() == s.0
                &&& r@ == s.1 + unconsumed(s.0, s.0.len() as int)
            }),
    {
        let decls = &body.local_decls;
        let nd = decls.len();
        let mut i: usize = 0;
        while i < nd
            invariant
                0 <= i <= nd,
                nd == decls@.len(),
                nd <= u32::MAX + 1,
                self.wf(),
                self.errors@ == old(self).scan_state().1,
                self.local_states() == discover(old(self).local_states(), decls@, i as int),
            decreases nd - i,
        {
            if is_linear_type(&decls[i].ty) {
                set_state(&mut self.live_linear_vars, i as u32, LinearVarState::Uninitialized);
            }
            i = i + 1;
        }
        let ghost s0 = self.scan_state();
        let nb = body.basic_blocks.len();
        let mut b: usize = 0;
        while b < nb
            invariant
                0 <= b <= nb,
                nb == body.basic_blocks@.len(),
                self.wf(),
                self.scan_state() == scan_blocks(decls@, s0, body.basic_blocks@, b as int),
                s0 == (
                    discover(old(self).local_states(), body.local_decls@, body.local_decls@.len() as int),
                    old(self).scan_state().1,
                ),
                decls@ == body.local_decls@,
            decreases nb - b,
        {
            self.analyze_basic_block(decls, &body.basic_blocks[b]);
            b = b + 1;
        }
        let ghost s1 = self.scan_state();
        let m = &self.live_linear_vars;
        let nm = m.len();
        let mut k: usize = 0;
        while k < nm
            invariant
                0 <= k <= nm,
                nm == m@.len(),
                m@ == s1.0,
                self.live_linear_vars@ == s1.0,
                tracked_unique(s1.0),
                self.errors@ == s1.1 + unconsumed(s1.0, k as int),
            decreases nm - k,
        {
            if m[k].1 == LinearVarState::Active {
                self.errors.push(LinearTypeError::UnconsumedReturn { var: m[k].0 });
                assert(self.errors@ =~= s1.1 + unconsumed(s1.0, k + 1));
            } else {
                assert(self.errors@ =~= s1.1 + unconsumed(s1.0, k + 1));
            }
            k = k + 1;
        }
        let mut errors: Vec<LinearTypeError> = Vec::new();
        std::mem::swap(&mut errors, &mut self.errors);
        errors
    }
}

/// Whether a MIR type is linear.
pub fn is_linear_type(ty: &crate::mir_lowering::MirType) -> (r: bool)
    ensures
        r == is_linear(*ty),
{
    match ty {
        crate::mir_lowering::MirType::ExternRef(_) => true,
        crate::mir_lowering::MirType::FuncRef => true,
        _ => false,
    }
}

/// The linear locals among the first `k` declarations, added to `s`
/// (each listed once).
pub open spec fn linear_locals(s: Seq<u32>, decls: Seq<MirLocalDecl>, k: int) -> Seq<u32>
    decreases k,
{
    if k <= 0 {
        s
    } else {
        let s1 = linear_locals(s, decls, k - 1);
        if is_linear(decls[k - 1].ty) && !s1.contains((k - 1) as u32) {
            s1.push((k - 1) as u32)
        } else {
            s1
        }
    }
}

/// Path completeness: collects the linear locals of a function. Following
/// a path records no error, so the analysis reports only errors already
/// collected, of which there are none.
pub struct LinearPathCompleteness {
    linear_vars: Vec<u32>,
    errors: Vec<LinearTypeError>,
}

impl LinearPathCompleteness {
    /// The linear locals collected.
    pub closed spec fn linear_set(&self) -> Seq<u32> {
        self.linear_vars@
    }

    /// No error is pending.
    pub closed spec fn wf(&self) -> bool {
        self.errors@.len() == 0
    }

    /// An analysis with nothing collected.
    pub fn new() -> (r: LinearPathCompleteness)
        ensures
            r.wf(),
            r.linear_set() == Seq::<u32>::empty(),
    {
        LinearPathCompleteness { linear_vars: Vec::new(), errors: Vec::new() }
    }

    /// Collects the linear locals of `body` and reports no error.
    pub fn analyze(&mut self, body: &MirFunction) -> (r: Vec<LinearTypeError>)
        requires
            old(self).wf(),
            body.local_decls@.len() <= u32::MAX + 1,
        ensures
            final(self).wf(),
            r@.len() == 0,
            final(self).linear_set() == linear_locals(
                old(self).linear_set(),
                body.local_decls@,
                body.local_decls@.len() as int,
            ),
    {
        let decls = &body.local_decls;
        let n = decls.len();
        let mut i: usize = 0;
        while i < n
            invariant
                0 <= i <= n,
                n == decls@.len(),
                n <= u32::MAX + 1,
                self.wf(),
                self.linear_vars@ == linear_locals(old(self).linear_set(), decls@, i as int),
            decreases n - i,
        {
            if is_linear_type(&decls[i].ty) {
                let l = i as u32;
                let mut present = false;
                let mut k: usize = 0;
                while k < self.linear_vars.len()
                    invariant
                        0 <= k <= self.linear_vars@.len(),
                        present == (exists|j: int| 0 <= j < k && self.linear_vars@[j] == l),
                    decreases self.linear_vars@.len() - k,
                {
                    if self.linear_vars[k] == l {
                        present = true;
                    }
                    k = k + 1;
                }
                if !present {
                    self.linear_vars.push(l);
                }
            }
            i = i + 1;
        }
        let mut errors: Vec<LinearTypeError> = Vec::new();
        std::mem::swap(&mut errors, &mut self.errors);
        errors
    }
}

/// The reference escape check: no reference to a linear value may outlive
/// its consumption. Borrows are checked by the borrow checker, so this
/// check adds no error of its own.
pub struct LinearCapabilityEscapeCheck {
    errors: Vec<LinearTypeError>,
}

impl LinearCapabilityEscapeCheck {
    /// No error is pending.
    pub closed spec fn wf(&self) -> bool {
        self.errors@.len() == 0
    }

    /// A check with no error.
    pub fn new() -> (r: LinearCapabilityEscapeCheck)
        ensures
            r.wf(),
    {
        LinearCapabilityEscapeCheck { errors: Vec::new() }
    }

    /// Checks a function; reports no error.
    pub fn analyze(&mut self, body: &MirFunction) -> (r: Vec<LinearTypeError>)
        requires
            old(self).wf(),
        ensures
            final(self).wf(),
            r@.len() == 0,
    {
        let mut errors: Vec<LinearTypeError> = Vec::new();
        std::mem::swap(&mut errors, &mut self.errors);
        errors
    }
}

/// The panic path invariant: linear values must be handled on unwinding
/// paths. The MIR model has no unwinding terminator, so no block is a
/// cleanup block and no error arises.
pub struct PanicPathInvariant {
    cleanup_blocks: Vec<usize>,
    errors: Vec<LinearTypeError>,
}

impl PanicPathInvariant {
    /// No error is pending.
    pub closed spec fn wf(&self) -> bool {
        self.errors@.len() == 0
    }

    /// The cleanup blocks found.
    pub closed spec fn cleanup(&self) -> Seq<usize> {
        self.cleanup_blocks@
    }

    /// A check with no cleanup block and no error.
    pub fn new() -> (r: PanicPathInvariant)
        ensures
            r.wf(),
            r.cleanup() == Seq::<usize>::empty(),
    {
        PanicPathInvariant { cleanup_blocks: Vec::new(), errors: Vec::new() }
    }

    /// Checks a function; reports no error.
    pub fn analyze(&mut self, body: &MirFunction) -> (r: Vec<LinearTypeError>)
        requires
            old(self).wf(),
        ensures
            final(self).wf(),
            final(self).cleanup() == old(self).cleanup(),
            r@.len() == 0,
    {
        let mut errors: Vec<LinearTypeError> = Vec::new();
        std::mem::swap(&mut errors, &mut self.errors);
        errors
    }
}

// ---------------------------------------------------------------------------
// Linear liveness
// ---------------------------------------------------------------------------

/// Liveness of a linear local at a program point.
#[derive(Debug, Clone, Copy, PartialEq, Eq, Structural)]
pub enum LinearLivenessState {
    Uninitialized,
    Active,
    Consumed,
}

/// The effect of a statement on the liveness of each local: moving a
/// local's value out consumes it, and the assigned local becomes active.
pub open spec fn liveness_effect(
    state: Seq<LinearLivenessState>,
    st: MirStatement,
) -> Seq<LinearLivenessState> {
    match st {
        MirStatement::Assign(place, rv) => {
            let s1 = match rv {
                MirRvalue::Use(MirOperand::Move(src)) => state.update(
                    place_root(*src) as int,
                    LinearLivenessState::Consumed,
                ),
                _ => state,
            };
            s1.update(place_root(place) as int, LinearLivenessState::Active)
        },
        _ => state,
    }
}

/// The locals a statement touches are within `n`.
pub open spec fn statement_in_range(st: MirStatement, n: nat) -> bool {
    match st {
        MirStatement::Assign(place, rv) => place_root(place) < n && match rv {
            MirRvalue::Use(MirOperand::Move(src)) => place_root(*src) < n,
            _ => true,
        },
        _ => true,
    }
}

/// Forward liveness of linear locals, for a function with `local_count`
/// locals.
pub struct LinearLivenessAnalysis {
    pub local_count: usize,
}

impl LinearLivenessAnalysis {
    /// The analysis of a function's locals.
    pub fn new(body: &MirFunction) -> (r: LinearLivenessAnalysis)
        ensures
            r.local_count == body.local_decls@.len(),
    {
        LinearLivenessAnalysis { local_count: body.local_decls.len() }
    }

    /// The initial state: every local uninitialized.
    pub fn bottom_value(&self) -> (r: Vec<LinearLivenessState>)
        ensures
            r@.len() == self.local_count,
            forall|i: int| 0 <= i < r@.len() ==> r@[i] == LinearLivenessState::Uninitialized,
    {
        let mut r: Vec<LinearLivenessState> = Vec::new();
        let mut i: usize = 0;
        while i < self.local_count
            invariant
                0 <= i <= self.local_count,
                r@.len() == i,
                forall|k: int| 0 <= k < i ==> r@[k] == LinearLivenessState::Uninitialized,
            decreases self.local_count - i,
        {
            r.push(LinearLivenessState::Uninitialized);
            i = i + 1;
        }
        r
    }

    /// Applies a statement's effect to the state.
    pub fn apply_statement_effect(&self, state: &mut Vec<LinearLivenessState>, statement: &MirStatement)
        requires
            statement_in_range(*statement, old(state)@.len()),
        ensures
            final(state)@ == liveness_effect(old(state)@, *statement),
    {
        match statement {
            MirStatement::Assign(place, rvalue) => {
                match rvalue {
                    MirRvalue::Use(MirOperand::Move(src)) => {
                        let l = root_local(src);
                        state.set(l as usize, LinearLivenessState::Consumed);
                    },
                    _ => {},
                }
                let d = root_local(place);
                state.set(d as usize, LinearLivenessState::Active);
            },
            _ => {},
        }
    }
}

/// What a statement does to liveness: an assignment makes its
/// destination's root local active, whatever its right-hand side; a plain
/// move out of another local also consumes that local; nothing else
/// changes, and a statement other than an assignment changes nothing.
pub proof fn lemma_liveness_effect(state: Seq<LinearLivenessState>, st: MirStatement)
    requires
        statement_in_range(st, state.len()),
    ensures
        ({
            let after = liveness_effect(state, st);
            &&& after.len() == state.len()
            &&& match st {
                MirStatement::Assign(place, rv) => {
                    &&& after[place_root(place) as int] == LinearLivenessState::Active
                    &&& forall|x: int|
                        0 <= x < state.len() && x != place_root(place) ==> #[trigger] after[x] == (
                        match rv {
                            MirRvalue::Use(MirOperand::Move(src)) => if x == place_root(*src) {
                                LinearLivenessState::Consumed
                            } else {
                                state[x]
                            },
                            _ => state[x],
                        })
                },
                _ => after == state,
            }
        }),
{
}

/// The root local of a place.
pub fn root_local(p: &MirPlace) -> (r: u32)
    ensures
        r == place_root(*p),
    decreases p,
{
    match p {
        MirPlace::Local(l) => *l,
        MirPlace::Projection(base, _) => root_local(base),
    }
}

proof fn lemma_unconsumed_empty(m: LocalStates, k: int)
    requires
        0 <= k <= m.len(),
        unconsumed(m, k).len() == 0,
    ensures
        forall|i: int| 0 <= i < k ==> (#[trigger] m[i]).1 != LinearVarState::Active,
    decreases k,
{
    if k > 0 {
        if m[k - 1].1 == LinearVarState::Active {
            assert(unconsumed(m, k).len() == unconsumed(m, k - 1).len() + 1);
        }
        lemma_unconsumed_empty(m, k - 1);
    }
}

/// A scan that reports no error leaves no linear local active at the end:
/// every linear value that became live was consumed.
pub proof fn lemma_clean_scan_consumes(s: ScanState)
    requires
        s.1 + unconsumed(s.0, s.0.len() as int) == Seq::<LinearTypeError>::empty(),
    ensures
        forall|i: int| 0 <= i < s.0.len() ==> (#[trigger] s.0[i]).1 != LinearVarState::Active,
{
    assert((s.1 + unconsumed(s.0, s.0.len() as int)).len() == 0);
    lemma_unconsumed_empty(s.0, s.0.len() as int);
}

} // verus!
