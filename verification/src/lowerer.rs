//! State of a lowering in progress, and its elementary steps: allocating
//! registers and labels, emitting operations, binding names.

use vstd::prelude::*;

use crate::ast::{canonical_expr_segments, Expr, expr_segments, ExprKind};
use crate::config::{CallPolicySpec, find_policy, LowererConfig, policy_for, PolicyEntry};
use crate::kinds::{Binding, BindingKind, Register};
use crate::ops::{
    Banked, banked_view, InferenceFailureMode, Instr, Label, LiveMarkerCondition, LoweredSequence,
    meta_views, Op, OpKind, OpMeta, OpMetaView, Stmt, stmt_view, stmt_views, StmtView,
};
use crate::policy::CallPolicyKind;
use crate::text::{lookup, NameTable};

verus! {

/// The macros that call a helper under a condition or record its result.
#[derive(Clone, Copy, Debug, PartialEq, Eq, Structural)]
pub enum CallMacro {
    ConditionalCall,
    ConditionalCallElidable,
    RecordKnownResult,
}

/// Why a program cannot be lowered at all. A rejection is an error of the
/// interpreter's author, as opposed to code that is merely not traced: whoever
/// drives the lowering is to panic on it, with the rejection's message, and to use
/// nothing of what was lowered.
#[derive(Clone, Copy, Debug, PartialEq, Eq, Structural)]
pub enum Reject {
    /// A register index that a byte cannot hold.
    RegisterIndex(u16),
    TooManyArguments(CallMacro),
    FloatOperand(CallMacro),
    /// The callee has no policy and none can be inferred.
    UnresolvedPolicy(CallMacro),
    /// The callee of a conditional call leaves a result.
    NotVoid(CallPolicyKind),
    ResultKindMismatch(CallMacro, CallPolicyKind),
    /// The policy has no effect class.
    NoEffectSlot(CallMacro, CallPolicyKind),
    LoopInvariantArguments(CallMacro, CallPolicyKind),
    NotElidable(CallPolicyKind),
    /// The policy has to be read from the callee, which is not a path.
    PolicyPathMissing,
    GreenNotIdent,
    GreenUnbound,
    GreenRegister(u16),
    DuplicateGreen(u8),
    GreenOrder,
    RedNotIdent,
    RedUnbound,
    RedRegister(u16),
    DuplicateRed(u8),
    RedOrder,
}

/// Why a dispatch loop is not lowered.
#[derive(Clone, Copy, Debug, PartialEq, Eq, Structural)]
pub enum Taint {
    /// The condition of an inner loop is not a comparison of two names.
    InnerLoopShape,
    /// The body of an inner loop holds something else than an argument fetch.
    InnerLoopBody,
}

/// A step that registers liveness before the lowered code runs. `B` lists
/// register bytes.
pub enum PrebuildItem<'a, B> {
    /// The steps of an inlined helper.
    Helper(&'a Expr),
    /// The registers of one live marker.
    Triple(Option<LiveMarkerCondition<'a>>, Banked<B>),
}

pub type Prebuild<'a> = PrebuildItem<'a, Vec<u8>>;

pub type PrebuildView<'a> = PrebuildItem<'a, Seq<u8>>;

pub open spec fn prebuild_view<'a>(p: Prebuild<'a>) -> PrebuildView<'a> {
    match p {
        PrebuildItem::Helper(f) => PrebuildItem::Helper(f),
        PrebuildItem::Triple(c, t) => PrebuildItem::Triple(c, banked_view(t)),
    }
}

pub open spec fn prebuild_views<'a>(v: Seq<Prebuild<'a>>) -> Seq<PrebuildView<'a>> {
    Seq::new(v.len(), |i: int| prebuild_view(v[i]))
}

/// What does not change while a body is lowered.
#[derive(Clone, Copy)]
pub struct LowerContext<'a> {
    pub config: Option<&'a LowererConfig>,
    pub call_policies: Option<&'a Vec<PolicyEntry>>,
    pub inference_failure_mode: InferenceFailureMode,
    pub auto_calls: bool,
    /// Whether the body is a dispatch arm's.
    pub in_dispatch_arm_body: bool,
}

/// A lowering in progress.
pub struct Lowerer<'a> {
    pub ctx: LowerContext<'a>,
    pub bindings: NameTable<Binding>,
    pub statements: Vec<Stmt<'a>>,
    pub op_metadata: Vec<OpMeta<'a>>,
    pub next_reg: u16,
    pub next_label: u16,
    pub inline_liveness_prebuild: Vec<Prebuild<'a>>,
    pub dispatch_tainted_reason: Option<Taint>,
    /// The variable that the opcode was fetched into.
    pub opcode_var_name: Option<&'a String>,
    /// The first rejection. From then on nothing that is emitted counts.
    pub rejected: Option<Reject>,
    /// Lowered bodies of dispatch arms.
    pub arm_bodies: Vec<LoweredSequence<'a>>,
}

/// Model of a [`Lowerer`].
pub struct LowerState<'a> {
    pub ctx: LowerContext<'a>,
    pub bindings: Map<Seq<char>, Binding>,
    pub statements: Seq<StmtView<'a>>,
    pub op_metadata: Seq<OpMetaView<'a>>,
    pub next_reg: u16,
    pub next_label: u16,
    pub prebuild: Seq<PrebuildView<'a>>,
    pub tainted: Option<Taint>,
    pub opcode_var: Option<&'a String>,
    pub rejected: Option<Reject>,
    pub arm_bodies: Seq<(Seq<StmtView<'a>>, Seq<OpMetaView<'a>>)>,
}

pub open spec fn body_views<'a>(v: Seq<LoweredSequence<'a>>) -> Seq<
    (Seq<StmtView<'a>>, Seq<OpMetaView<'a>>),
> {
    Seq::new(v.len(), |i: int| sequence_view(v[i]))
}

impl<'a> View for Lowerer<'a> {
    type V = LowerState<'a>;

    open spec fn view(&self) -> LowerState<'a> {
        LowerState {
            ctx: self.ctx,
            bindings: self.bindings@,
            statements: stmt_views(self.statements@),
            op_metadata: meta_views(self.op_metadata@),
            next_reg: self.next_reg,
            next_label: self.next_label,
            prebuild: prebuild_views(self.inline_liveness_prebuild@),
            tainted: self.dispatch_tainted_reason,
            opcode_var: self.opcode_var_name,
            rejected: self.rejected,
            arm_bodies: body_views(self.arm_bodies@),
        }
    }
}

// ── Elementary steps on the model ────────────────────────────────────

/// A register as the lowerer numbers it, before it is known to fit its bank.
#[derive(Clone, Copy, Debug, PartialEq, Eq, Structural)]
pub struct Slot {
    pub kind: BindingKind,
    pub reg: u16,
}

pub open spec fn int_slot(reg: u16) -> Slot {
    Slot { kind: BindingKind::Int, reg }
}

pub open spec fn ref_slot(reg: u16) -> Slot {
    Slot { kind: BindingKind::Ref, reg }
}

pub open spec fn slot_of(b: Binding) -> Slot {
    Slot { kind: b.kind, reg: b.reg }
}

/// The slots of a list of bindings.
pub open spec fn slots_of(bindings: Seq<Binding>) -> Seq<Slot> {
    Seq::new(bindings.len(), |i: int| slot_of(bindings[i]))
}

/// The registers of a list of slots.
pub open spec fn registers(slots: Seq<Slot>) -> Seq<Register> {
    Seq::new(slots.len(), |i: int| Register::of(slots[i].kind, slots[i].reg))
}

/// The first slot index that does not fit a bank.
#[verifier::opaque]
pub open spec fn first_overflow(slots: Seq<Slot>) -> Option<u16>
    decreases slots.len(),
{
    if slots.len() == 0 {
        None
    } else if slots[0].reg > 255 {
        Some(slots[0].reg)
    } else {
        first_overflow(slots.drop_first())
    }
}

pub open spec fn max_u16(a: u16, b: u16) -> u16 {
    if a >= b {
        a
    } else {
        b
    }
}

/// `n + 1`, or the largest number if there is no such number.
pub open spec fn next_u16(n: u16) -> u16 {
    if n == u16::MAX {
        n
    } else {
        (n + 1) as u16
    }
}

impl<'a> LowerState<'a> {
    /// The state after a rejection; the first one stays.
    #[verifier::opaque]
    pub open spec fn reject(self, why: Reject) -> LowerState<'a> {
        LowerState {
            rejected: match self.rejected {
                Some(r) => Some(r),
                None => Some(why),
            },
            ..self
        }
    }

    #[verifier::opaque]
    pub open spec fn bind(self, name: Seq<char>, b: Binding) -> LowerState<'a> {
        LowerState { bindings: self.bindings.insert(name, b), ..self }
    }

    /// A statement and its description are added together.
    #[verifier::opaque]
    pub open spec fn push(self, meta: OpMetaView<'a>, stmt: StmtView<'a>) -> LowerState<'a> {
        LowerState {
            statements: self.statements.push(stmt),
            op_metadata: self.op_metadata.push(meta),
            ..self
        }
    }

    /// An operation without branches; a register that does not fit its bank is
    /// a rejection.
    #[verifier::opaque]
    pub open spec fn emit(
        self,
        kind: OpKind,
        reads: Seq<Slot>,
        writes: Seq<Slot>,
        stmt: StmtView<'a>,
    ) -> LowerState<'a> {
        match first_overflow(reads) {
            Some(i) => self.reject(Reject::RegisterIndex(i)),
            None => match first_overflow(writes) {
                Some(i) => self.reject(Reject::RegisterIndex(i)),
                None => self.push(
                    OpMetaView::line(kind, registers(reads), registers(writes)),
                    stmt,
                ),
            },
        }
    }

    #[verifier::opaque]
    pub open spec fn emit_op(
        self,
        kind: OpKind,
        reads: Seq<Slot>,
        writes: Seq<Slot>,
        op: Op<'a>,
    ) -> LowerState<'a> {
        self.emit(kind, reads, writes, Instr::Op(op))
    }

    #[verifier::opaque]
    pub open spec fn aux(self, op: Op<'a>) -> LowerState<'a> {
        self.push(OpMetaView::auxiliary(), Instr::Op(op))
    }

    #[verifier::opaque]
    pub open spec fn live(self) -> LowerState<'a> {
        self.push(OpMetaView::live(), Instr::Op(Op::LivePlaceholder))
    }

    #[verifier::opaque]
    pub open spec fn live_if(self, condition: LiveMarkerCondition<'a>) -> LowerState<'a> {
        self.push(OpMetaView::live_if(condition), Instr::Op(Op::LivePlaceholder))
    }

    #[verifier::opaque]
    pub open spec fn label_def(self, label: Label) -> LowerState<'a> {
        self.push(OpMetaView::defines(label), Instr::Op(Op::MarkLabel(label)))
    }

    #[verifier::opaque]
    pub open spec fn jump(self, label: Label) -> LowerState<'a> {
        self.push(OpMetaView::jump_to(label), Instr::Op(Op::Jump(label)))
    }

    /// A branch on the truth of an integer register.
    #[verifier::opaque]
    pub open spec fn guard(self, cond: u16, target: Label) -> LowerState<'a> {
        self.branch(seq![int_slot(cond)], target, Op::GotoIfNotIntIsTrue(cond, target))
    }

    /// A branch that reads the given registers.
    #[verifier::opaque]
    pub open spec fn branch(self, reads: Seq<Slot>, target: Label, op: Op<'a>) -> LowerState<'a> {
        match first_overflow(reads) {
            Some(i) => self.reject(Reject::RegisterIndex(i)),
            None => self.push(OpMetaView::guard(registers(reads), target), Instr::Op(op)),
        }
    }

    /// An operation that nothing follows.
    #[verifier::opaque]
    pub open spec fn terminal(self, reads: Seq<Slot>, op: Op<'a>) -> LowerState<'a> {
        match first_overflow(reads) {
            Some(i) => self.reject(Reject::RegisterIndex(i)),
            None => self.push(OpMetaView::end(registers(reads)), Instr::Op(op)),
        }
    }

    /// The state after one register was handed out.
    #[verifier::opaque]
    pub open spec fn reg_taken(self) -> LowerState<'a> {
        LowerState { next_reg: next_u16(self.next_reg), ..self }
    }

    pub open spec fn fresh_label(self) -> Label {
        Label { id: self.next_label }
    }

    /// The state after one label was handed out.
    #[verifier::opaque]
    pub open spec fn label_taken(self) -> LowerState<'a> {
        LowerState { next_label: next_u16(self.next_label), ..self }
    }

    /// The state in which a branch is lowered by itself.
    #[verifier::opaque]
    pub open spec fn nested(self) -> LowerState<'a> {
        LowerState {
            statements: seq![],
            op_metadata: seq![],
            prebuild: seq![],
            tainted: None,
            arm_bodies: seq![],
            ..self
        }
    }

    /// The state after a branch: registers and labels that it took stay taken,
    /// and the names that it bound are forgotten.
    #[verifier::opaque]
    pub open spec fn joined(self, branch: LowerState<'a>) -> LowerState<'a> {
        LowerState {
            next_reg: max_u16(self.next_reg, branch.next_reg),
            next_label: max_u16(self.next_label, branch.next_label),
            rejected: branch.rejected,
            ..self
        }
    }

    /// The state after a branch that could not be lowered.
    #[verifier::opaque]
    pub open spec fn abandoned(self, branch: LowerState<'a>) -> LowerState<'a> {
        LowerState { rejected: branch.rejected, ..self }
    }

    /// The branch's statements are added.
    #[verifier::opaque]
    pub open spec fn append(
        self,
        seq: (Seq<StmtView<'a>>, Seq<OpMetaView<'a>>),
    ) -> LowerState<'a> {
        LowerState {
            statements: self.statements + seq.0,
            op_metadata: self.op_metadata + seq.1,
            ..self
        }
    }

    #[verifier::opaque]
    pub open spec fn prebuild_helper(self, func: &'a Expr) -> LowerState<'a> {
        LowerState { prebuild: self.prebuild.push(PrebuildItem::Helper(func)), ..self }
    }
}

/// What a lowered sequence holds.
pub open spec fn sequence_view<'a>(s: LoweredSequence<'a>) -> (
    Seq<StmtView<'a>>,
    Seq<OpMetaView<'a>>,
) {
    (stmt_views(s.statements@), meta_views(s.op_metadata@))
}

/// Whether every statement has its description.
pub open spec fn aligned<'a>(s: LowerState<'a>) -> bool {
    s.statements.len() == s.op_metadata.len()
}

// ── The state of a new lowering ──────────────────────────────────────

/// The virtualizable is bound to its entry register.
pub open spec fn with_vable_input<'a>(s: LowerState<'a>) -> LowerState<'a> {
    match s.ctx.config {
        Some(config) => match (config.vable_var, config.vable_input_ref_reg) {
            (Some(var), Some(reg)) => LowerState {
                next_reg: max_u16(s.next_reg, next_u16(reg)),
                ..s.bind(var@, Binding::fixed(BindingKind::Ref, reg))
            },
            _ => s,
        },
        None => s,
    }
}

pub open spec fn start_state<'a>(
    config: Option<&'a LowererConfig>,
    call_policies: Option<&'a Vec<PolicyEntry>>,
    mode: InferenceFailureMode,
) -> LowerState<'a> {
    with_vable_input(
        LowerState {
            ctx: LowerContext {
                config,
                call_policies,
                inference_failure_mode: mode,
                auto_calls: match config {
                    Some(c) => c.auto_calls,
                    None => false,
                },
                in_dispatch_arm_body: false,
            },
            bindings: Map::empty(),
            statements: seq![],
            op_metadata: seq![],
            next_reg: 0,
            next_label: 0,
            prebuild: seq![],
            tainted: None,
            opcode_var: None,
            rejected: None,
            arm_bodies: seq![],
        },
    )
}

/// The state of a new lowering under a configuration.
pub open spec fn config_state<'a>(config: Option<&'a LowererConfig>) -> LowerState<'a> {
    start_state(
        config,
        match config {
            Some(c) => Some(&c.calls),
            None => None,
        },
        InferenceFailureMode::ReturnNone,
    )
}

// ── Policies of callees ──────────────────────────────────────────────

/// Whether the callee is a path, so that what it publishes can be named.
pub open spec fn is_named_callee(func: Expr) -> bool {
    match func.kind {
        ExprKind::Path(p) => p.path.segments@.len() > 0,
        _ => false,
    }
}

/// Whether the callee is a path, so that what it publishes can be named.
pub fn has_named_callee(func: &Expr) -> (r: bool)
    ensures
        r == is_named_callee(*func),
{
    match &func.kind {
        ExprKind::Path(p) => p.path.segments.len() > 0,
        _ => false,
    }
}

/// The policy under which a callee is called: the declared one, else an
/// inferred one where the context allows that and the callee has a name.
#[verifier::opaque]
pub open spec fn resolved_policy(ctx: LowerContext, func: Expr) -> Option<CallPolicySpec> {
    match expr_segments(func) {
        None => None,
        Some(segments) => {
            let declared = match ctx.call_policies {
                Some(entries) => find_policy(entries@, segments),
                None => None,
            };
            match declared {
                Some(p) => Some(p),
                None => if (ctx.inference_failure_mode is Panic || ctx.auto_calls)
                    && is_named_callee(func) {
                    Some(CallPolicySpec::Infer)
                } else {
                    None
                },
            }
        },
    }
}

// ── Elementary steps ─────────────────────────────────────────────────

/// The larger of two numbers.
pub fn larger(a: u16, b: u16) -> (r: u16)
    ensures
        r == max_u16(a, b),
{
    if a >= b {
        a
    } else {
        b
    }
}

/// The next number, if there is one.
pub fn successor(n: u16) -> (r: u16)
    ensures
        r == next_u16(n),
{
    if n == u16::MAX {
        n
    } else {
        n + 1
    }
}

pub fn no_slots() -> (r: Vec<Slot>)
    ensures
        r@ == Seq::<Slot>::empty(),
{
    Vec::new()
}

pub fn one_slot(a: Slot) -> (r: Vec<Slot>)
    ensures
        r@ == seq![a],
{
    let r = vec![a];
    assert(r@ =~= seq![a]);
    r
}

pub fn two_slots(a: Slot, b: Slot) -> (r: Vec<Slot>)
    ensures
        r@ == seq![a, b],
{
    let r = vec![a, b];
    assert(r@ =~= seq![a, b]);
    r
}

pub fn three_slots(a: Slot, b: Slot, c: Slot) -> (r: Vec<Slot>)
    ensures
        r@ == seq![a, b, c],
{
    let r = vec![a, b, c];
    assert(r@ =~= seq![a, b, c]);
    r
}

pub fn slot(kind: BindingKind, reg: u16) -> (r: Slot)
    ensures
        r == (Slot { kind, reg }),
{
    Slot { kind, reg }
}

pub fn int_reg(reg: u16) -> (r: Slot)
    ensures
        r == int_slot(reg),
{
    Slot { kind: BindingKind::Int, reg }
}

pub fn ref_reg(reg: u16) -> (r: Slot)
    ensures
        r == ref_slot(reg),
{
    Slot { kind: BindingKind::Ref, reg }
}

/// The slots of a list of bindings.
pub fn binding_slots(bindings: &Vec<Binding>) -> (r: Vec<Slot>)
    ensures
        r@ == slots_of(bindings@),
{
    let mut out: Vec<Slot> = Vec::new();
    let mut i: usize = 0;
    while i < bindings.len()
        invariant
            i <= bindings.len(),
            out.len() == i,
            forall|j: int| 0 <= j < i ==> out@[j] == slot_of(bindings@[j]),
        decreases bindings.len() - i,
    {
        out.push(Slot { kind: bindings[i].kind, reg: bindings[i].reg });
        i = i + 1;
    }
    assert(out@ =~= slots_of(bindings@));
    out
}

/// The registers of the slots, or the first index that fits no bank.
pub fn slot_registers(slots: &Vec<Slot>) -> (r: Result<Vec<Register>, u16>)
    ensures
        match r {
            Ok(v) => first_overflow(slots@) is None && v@ == registers(slots@),
            Err(i) => first_overflow(slots@) == Some(i),
        },
{
    proof {
        reveal(first_overflow);
    }
    let mut out: Vec<Register> = Vec::new();
    let mut i: usize = 0;
    assert(slots@.skip(0) =~= slots@);
    while i < slots.len()
        invariant
            i <= slots.len(),
            out.len() == i,
            first_overflow(slots@) == first_overflow(slots@.skip(i as int)),
            forall|j: int|
                0 <= j < i ==> out@[j] == Register::of(slots@[j].kind, slots@[j].reg),
        decreases slots.len() - i,
    {
        proof {
            reveal(first_overflow);
        }
        assert(slots@.skip(i as int)[0] == slots@[i as int]);
        assert(slots@.skip(i as int).drop_first() =~= slots@.skip(i + 1));
        if slots[i].reg > 255 {
            return Err(slots[i].reg);
        }
        out.push(Register::new(slots[i].kind, slots[i].reg));
        i = i + 1;
    }
    assert(out@ =~= registers(slots@));
    Ok(out)
}

impl<'a> Lowerer<'a> {
    /// A lowering under a configuration, which also gives the call policies.
    pub fn new(config: Option<&'a LowererConfig>) -> (r: Lowerer<'a>)
        ensures
            r@ == config_state(config),
    {
        let call_policies = match config {
            Some(c) => Some(&c.calls),
            None => None,
        };
        Lowerer::new_with_call_policies(config, call_policies, InferenceFailureMode::ReturnNone)
    }

    /// A lowering with its own call policies.
    pub fn new_with_call_policies(
        config: Option<&'a LowererConfig>,
        call_policies: Option<&'a Vec<PolicyEntry>>,
        inference_failure_mode: InferenceFailureMode,
    ) -> (r: Lowerer<'a>)
        ensures
            r@ == start_state(config, call_policies, inference_failure_mode),
    {
        let auto_calls = match config {
            Some(c) => c.auto_calls,
            None => false,
        };
        let mut this = Lowerer {
            ctx: LowerContext {
                config,
                call_policies,
                inference_failure_mode,
                auto_calls,
                in_dispatch_arm_body: false,
            },
            bindings: NameTable::new(),
            statements: Vec::new(),
            op_metadata: Vec::new(),
            next_reg: 0,
            next_label: 0,
            inline_liveness_prebuild: Vec::new(),
            dispatch_tainted_reason: None,
            opcode_var_name: None,
            rejected: None,
            arm_bodies: Vec::new(),
        };
        assert(this@.statements =~= seq![]);
        assert(this@.op_metadata =~= seq![]);
        assert(this@.prebuild =~= seq![]);
        assert(this@.arm_bodies =~= seq![]);
        this.install_vable_input_binding();
        this
    }

    /// Binds the virtualizable to its entry register.
    pub fn install_vable_input_binding(&mut self)
        ensures
            final(self)@ == with_vable_input(old(self)@),
    {
        proof {
            reveal(LowerState::bind);
            reveal(with_vable_input);
        }
        if let Some(config) = self.ctx.config {
            if let Some(var) = &config.vable_var {
                if let Some(reg) = config.vable_input_ref_reg {
                    self.bind(var.clone(), Binding::new_fixed(BindingKind::Ref, reg));
                    self.next_reg = larger(self.next_reg, successor(reg));
                }
            }
        }
    }

    /// Gives a name a binding.
    pub fn bind(&mut self, name: String, binding: Binding)
        ensures
            final(self)@ == old(self)@.bind(name@, binding),
    {
        proof {
            reveal(LowerState::bind);
        }
        self.bindings.insert(name, binding);
    }

    /// Records a rejection, if there was none before.
    pub fn reject(&mut self, why: Reject)
        ensures
            final(self)@ == old(self)@.reject(why),
    {
        proof {
            reveal(LowerState::reject);
        }
        if self.rejected.is_none() {
            self.rejected = Some(why);
        }
    }

    /// The register that the virtualizable is bound to.
    pub fn vable_base_reg(&self) -> (r: Option<u16>)
        ensures
            r == vable_base(self@),
    {
        match self.ctx.config {
            Some(config) => match &config.vable_var {
                Some(var) => match self.bindings.get(var.as_str()) {
                    Some(b) => match b.kind {
                        BindingKind::Ref => Some(b.reg),
                        _ => None,
                    },
                    None => None,
                },
                None => None,
            },
            None => None,
        }
    }

    /// Hands out a register.
    pub fn alloc_reg(&mut self) -> (r: u16)
        ensures
            r == old(self)@.next_reg,
            final(self)@ == old(self)@.reg_taken(),
    {
        proof {
            reveal(LowerState::reg_taken);
        }
        let reg = self.next_reg;
        self.next_reg = successor(self.next_reg);
        reg
    }

    /// Hands out a label.
    pub fn alloc_label(&mut self) -> (r: Label)
        ensures
            r == old(self)@.fresh_label(),
            final(self)@ == old(self)@.label_taken(),
    {
        proof {
            reveal(LowerState::fresh_label);
            reveal(LowerState::label_taken);
        }
        let label = Label { id: self.next_label };
        self.next_label = successor(self.next_label);
        label
    }

    /// Adds a statement together with its description.
    pub fn emit_op(&mut self, meta: OpMeta<'a>, stmt: Stmt<'a>)
        ensures
            final(self)@ == old(self)@.push(meta@, stmt_view(stmt)),
    {
        proof {
            reveal(LowerState::push);
        }
        let ghost before = self@;
        self.statements.push(stmt);
        self.op_metadata.push(meta);
        assert(self@.statements =~= before.statements.push(stmt_view(stmt)));
        assert(self@.op_metadata =~= before.op_metadata.push(meta@));
    }

    /// Adds an operation without branches.
    pub fn emit_linear(
        &mut self,
        kind: OpKind,
        reads: Vec<Slot>,
        writes: Vec<Slot>,
        stmt: Stmt<'a>,
    )
        ensures
            final(self)@ == old(self)@.emit(kind, reads@, writes@, stmt_view(stmt)),
    {
        proof {
            reveal(LowerState::emit);
        }
        match slot_registers(&reads) {
            Err(i) => self.reject(Reject::RegisterIndex(i)),
            Ok(r) => match slot_registers(&writes) {
                Err(i) => self.reject(Reject::RegisterIndex(i)),
                Ok(w) => self.emit_op(OpMeta::linear(kind, r, w), stmt),
            },
        }
    }

    /// Adds an operation without branches and without lists.
    pub fn emit_simple(&mut self, kind: OpKind, reads: Vec<Slot>, writes: Vec<Slot>, op: Op<'a>)
        ensures
            final(self)@ == old(self)@.emit_op(kind, reads@, writes@, op),
    {
        proof {
            reveal(LowerState::emit_op);
        }
        self.emit_linear(kind, reads, writes, Instr::Op(op));
    }

    /// Adds a builder statement that emits no operation.
    pub fn emit_aux(&mut self, op: Op<'a>)
        ensures
            final(self)@ == old(self)@.aux(op),
    {
        proof {
            reveal(LowerState::aux);
        }
        self.emit_op(OpMeta::aux(), Instr::Op(op));
    }

    /// Adds a live marker.
    pub fn emit_live(&mut self)
        ensures
            final(self)@ == old(self)@.live(),
    {
        proof {
            reveal(LowerState::live);
        }
        self.emit_op(OpMeta::live_marker(), Instr::Op(Op::LivePlaceholder));
    }

    /// Adds a live marker that is emitted only under a condition.
    pub fn emit_live_if(&mut self, condition: LiveMarkerCondition<'a>)
        ensures
            final(self)@ == old(self)@.live_if(condition),
    {
        proof {
            reveal(LowerState::live_if);
        }
        self.emit_op(OpMeta::live_marker_if(condition), Instr::Op(Op::LivePlaceholder));
    }

    /// Puts `label` here.
    pub fn emit_label_def(&mut self, label: Label)
        ensures
            final(self)@ == old(self)@.label_def(label),
    {
        proof {
            reveal(LowerState::label_def);
        }
        self.emit_op(OpMeta::label_def(label), Instr::Op(Op::MarkLabel(label)));
    }

    /// Adds a jump.
    pub fn emit_jump(&mut self, target: Label)
        ensures
            final(self)@ == old(self)@.jump(target),
    {
        proof {
            reveal(LowerState::jump);
        }
        self.emit_op(OpMeta::jump(target), Instr::Op(Op::Jump(target)));
    }

    /// Adds a branch that is taken where `cond_reg` is zero.
    pub fn emit_conditional_guard(&mut self, cond_reg: u16, target: Label)
        ensures
            final(self)@ == old(self)@.guard(cond_reg, target),
    {
        proof {
            reveal(LowerState::guard);
        }
        self.emit_branch(
            one_slot(int_reg(cond_reg)),
            target,
            Op::GotoIfNotIntIsTrue(cond_reg, target),
        );
    }

    /// Adds a branch that reads the given registers.
    pub fn emit_branch(&mut self, reads: Vec<Slot>, target: Label, op: Op<'a>)
        ensures
            final(self)@ == old(self)@.branch(reads@, target, op),
    {
        proof {
            reveal(LowerState::branch);
        }
        match slot_registers(&reads) {
            Err(i) => self.reject(Reject::RegisterIndex(i)),
            Ok(r) => {
                let meta = OpMeta {
                    kind: OpKind::GotoIfNot,
                    reads: r,
                    writes: Vec::new(),
                    target_label: Some(target),
                    live_target_labels: Vec::new(),
                    live_condition: None,
                    control: crate::ops::ControlFlowClass::ConditionalGuard,
                };
                self.emit_op(meta, Instr::Op(op));
            },
        }
    }

    /// Adds an operation that nothing follows.
    pub fn emit_terminal(&mut self, reads: Vec<Slot>, op: Op<'a>)
        ensures
            final(self)@ == old(self)@.terminal(reads@, op),
    {
        proof {
            reveal(LowerState::terminal);
        }
        match slot_registers(&reads) {
            Err(i) => self.reject(Reject::RegisterIndex(i)),
            Ok(r) => self.emit_op(OpMeta::terminal(r), Instr::Op(op)),
        }
    }

    /// Adds the statements of a branch that was lowered by itself.
    pub fn append_lowered_sequence(&mut self, lowered: LoweredSequence<'a>)
        ensures
            final(self)@ == old(self)@.append(sequence_view(lowered)),
    {
        proof {
            reveal(LowerState::append);
        }
        let ghost before = self@;
        let mut statements = lowered.statements;
        let mut op_metadata = lowered.op_metadata;
        self.statements.append(&mut statements);
        self.op_metadata.append(&mut op_metadata);
        assert(self@.statements =~= before.statements + stmt_views(lowered.statements@));
        assert(self@.op_metadata =~= before.op_metadata + meta_views(lowered.op_metadata@));
    }

    /// Queues the liveness steps of an inlined helper.
    pub fn queue_prebuild(&mut self, func: &'a Expr)
        ensures
            final(self)@ == old(self)@.prebuild_helper(func),
    {
        proof {
            reveal(LowerState::prebuild_helper);
        }
        let ghost before = self@;
        self.inline_liveness_prebuild.push(PrebuildItem::Helper(func));
        assert(self@.prebuild =~= before.prebuild.push(PrebuildItem::Helper(func)));
    }

    /// A lowering of a branch, which starts from the names bound so far.
    pub fn start_branch(&self) -> (r: Lowerer<'a>)
        ensures
            r@ == self@.nested(),
    {
        proof {
            reveal(LowerState::nested);
        }
        let r = Lowerer {
            ctx: self.ctx,
            bindings: self.bindings.copied(),
            statements: Vec::new(),
            op_metadata: Vec::new(),
            next_reg: self.next_reg,
            next_label: self.next_label,
            inline_liveness_prebuild: Vec::new(),
            dispatch_tainted_reason: None,
            opcode_var_name: self.opcode_var_name,
            rejected: self.rejected,
            arm_bodies: Vec::new(),
        };
        assert(r@.statements =~= seq![]);
        assert(r@.op_metadata =~= seq![]);
        assert(r@.prebuild =~= seq![]);
        assert(r@.arm_bodies =~= seq![]);
        r
    }

    /// Takes over the registers and labels that a branch took.
    pub fn join_branch(&mut self, branch: &Lowerer<'a>)
        ensures
            final(self)@ == old(self)@.joined(branch@),
    {
        proof {
            reveal(LowerState::joined);
        }
        self.next_reg = larger(self.next_reg, branch.next_reg);
        self.next_label = larger(self.next_label, branch.next_label);
        self.rejected = branch.rejected;
    }

    /// Forgets a branch that could not be lowered.
    pub fn abandon_branch(&mut self, branch: &Lowerer<'a>)
        ensures
            final(self)@ == old(self)@.abandoned(branch@),
    {
        proof {
            reveal(LowerState::abandoned);
        }
        self.rejected = branch.rejected;
    }

    /// The policy under which `func` is called.
    pub fn resolve_call_policy(&self, func: &Expr) -> (r: Option<CallPolicySpec>)
        ensures
            r == resolved_policy(self@.ctx, *func),
    {
        proof {
            reveal(resolved_policy);
        }
        match canonical_expr_segments(func) {
            None => None,
            Some(segments) => {
                let declared = match self.ctx.call_policies {
                    Some(entries) => policy_for(entries, &segments),
                    None => None,
                };
                match declared {
                    Some(p) => Some(p),
                    None => {
                        let may_infer = match self.ctx.inference_failure_mode {
                            InferenceFailureMode::Panic => true,
                            InferenceFailureMode::ReturnNone => self.ctx.auto_calls,
                        };
                        if may_infer && has_named_callee(func) {
                            Some(CallPolicySpec::Infer)
                        } else {
                            None
                        }
                    },
                }
            },
        }
    }
}

/// The register that the virtualizable is bound to.
pub open spec fn vable_base<'a>(s: LowerState<'a>) -> Option<u16> {
    match s.ctx.config {
        Some(config) => match config.vable_var {
            Some(var) => match lookup(s.bindings, var@) {
                Some(b) => if b.kind is Ref {
                    Some(b.reg)
                } else {
                    None
                },
                None => None,
            },
            None => None,
        },
        None => None,
    }
}

} // verus!
