//! What lowering produces: builder statements, and beside each one the
//! description of its effect that the liveness analysis reads.

use vstd::prelude::*;

use crate::ast::{Expr, NodeId};
use crate::kinds::{BindingKind, Register, ValueKind};
use crate::policy::{CallFamily, CallResultKind, CondCallEffectSlot, PolicyCheck, RaisingCodes};

verus! {

/// A branch target. Labels are numbered in the order of their allocation.
#[derive(Clone, Copy, Debug, PartialEq, Eq, Structural)]
pub struct Label {
    pub id: u16,
}

#[derive(Clone, Copy, Debug, PartialEq, Eq, Structural)]
pub enum OpKind {
    /// Point at which the live registers are recorded.
    LiveMarker,
    LoadConstI,
    LoadConstR,
    LoadConstF,
    MoveI,
    MoveR,
    MoveF,
    BinopI,
    UnaryI,
    /// Unconditional jump.
    Jump,
    /// Conditional branch, taken where the condition does not hold.
    GotoIfNot,
    /// Definition of a label.
    MarkLabel,
    /// Any call that is not inlined.
    Call,
    /// Call of another JitCode.
    InlineCall,
    /// Access to a virtualizable.
    Vable,
    /// Access to a state field.
    StateField,
    GuardValue,
    RecordKnownResult,
    JitMergePoint,
    LoopHeader,
    /// Builder statement that emits no operation.
    Aux,
}

/// How control leaves an operation.
#[derive(Clone, Copy, Debug, PartialEq, Eq, Structural)]
pub enum ControlFlowClass {
    /// To the next operation.
    Linear,
    /// To the next operation; the live registers are recorded here.
    LiveMarker,
    /// To the next operation or to the target label.
    ConditionalGuard,
    /// To the target label.
    UnconditionalJump,
    /// To the next operation; the target label stands here.
    LabelDef,
    /// Nowhere.
    Terminal,
}

/// Run-time condition under which a live marker is emitted: the policy byte
/// that `func` publishes is one of `codes`.
#[derive(Clone, Copy)]
pub struct LiveMarkerCondition<'a> {
    pub func: &'a Expr,
    pub codes: RaisingCodes,
}

/// Uses, definitions and control flow of one statement.
pub struct OpMeta<'a> {
    pub kind: OpKind,
    pub reads: Vec<Register>,
    pub writes: Vec<Register>,
    pub target_label: Option<Label>,
    pub live_target_labels: Vec<Label>,
    pub live_condition: Option<LiveMarkerCondition<'a>>,
    pub control: ControlFlowClass,
}

/// Model of an [`OpMeta`].
pub struct OpMetaView<'a> {
    pub kind: OpKind,
    pub reads: Seq<Register>,
    pub writes: Seq<Register>,
    pub target_label: Option<Label>,
    pub live_target_labels: Seq<Label>,
    pub live_condition: Option<LiveMarkerCondition<'a>>,
    pub control: ControlFlowClass,
}

impl<'a> View for OpMeta<'a> {
    type V = OpMetaView<'a>;

    open spec fn view(&self) -> OpMetaView<'a> {
        OpMetaView {
            kind: self.kind,
            reads: self.reads@,
            writes: self.writes@,
            target_label: self.target_label,
            live_target_labels: self.live_target_labels@,
            live_condition: self.live_condition,
            control: self.control,
        }
    }
}

/// The models of a list of descriptions.
pub open spec fn meta_views<'a>(v: Seq<OpMeta<'a>>) -> Seq<OpMetaView<'a>> {
    Seq::new(v.len(), |i: int| v[i]@)
}

impl<'a> OpMetaView<'a> {
    pub open spec fn live_with(reads: Seq<Register>, labels: Seq<Label>) -> OpMetaView<'a> {
        OpMetaView {
            kind: OpKind::LiveMarker,
            reads,
            writes: seq![],
            target_label: None,
            live_target_labels: labels,
            live_condition: None,
            control: ControlFlowClass::LiveMarker,
        }
    }

    pub open spec fn live() -> OpMetaView<'a> {
        OpMetaView::live_with(seq![], seq![])
    }

    pub open spec fn live_if(condition: LiveMarkerCondition<'a>) -> OpMetaView<'a> {
        OpMetaView { live_condition: Some(condition), ..OpMetaView::live() }
    }

    pub open spec fn line(kind: OpKind, reads: Seq<Register>, writes: Seq<Register>) -> OpMetaView<
        'a,
    > {
        OpMetaView {
            kind,
            reads,
            writes,
            target_label: None,
            live_target_labels: seq![],
            live_condition: None,
            control: ControlFlowClass::Linear,
        }
    }

    pub open spec fn to_label(
        kind: OpKind,
        reads: Seq<Register>,
        target: Label,
        control: ControlFlowClass,
    ) -> OpMetaView<'a> {
        OpMetaView {
            kind,
            reads,
            writes: seq![],
            target_label: Some(target),
            live_target_labels: seq![],
            live_condition: None,
            control,
        }
    }

    pub open spec fn jump_to(target: Label) -> OpMetaView<'a> {
        OpMetaView::to_label(
            OpKind::Jump,
            seq![],
            target,
            ControlFlowClass::UnconditionalJump,
        )
    }

    pub open spec fn defines(target: Label) -> OpMetaView<'a> {
        OpMetaView::to_label(OpKind::MarkLabel, seq![], target, ControlFlowClass::LabelDef)
    }

    pub open spec fn guard(reads: Seq<Register>, target: Label) -> OpMetaView<'a> {
        OpMetaView::to_label(OpKind::GotoIfNot, reads, target, ControlFlowClass::ConditionalGuard)
    }

    pub open spec fn auxiliary() -> OpMetaView<'a> {
        OpMetaView::line(OpKind::Aux, seq![], seq![])
    }

    pub open spec fn end(reads: Seq<Register>) -> OpMetaView<'a> {
        OpMetaView {
            control: ControlFlowClass::Terminal,
            ..OpMetaView::line(OpKind::Aux, reads, seq![])
        }
    }
}

impl<'a> OpMeta<'a> {
    /// A live marker.
    pub fn live_marker() -> (r: OpMeta<'a>)
        ensures
            r@ == OpMetaView::<'a>::live(),
    {
        OpMeta::live_marker_with(Vec::new(), Vec::new())
    }

    /// A live marker that is emitted only under a condition.
    pub fn live_marker_if(condition: LiveMarkerCondition<'a>) -> (r: OpMeta<'a>)
        ensures
            r@ == OpMetaView::live_if(condition),
    {
        OpMeta {
            kind: OpKind::LiveMarker,
            reads: Vec::new(),
            writes: Vec::new(),
            target_label: None,
            live_target_labels: Vec::new(),
            live_condition: Some(condition),
            control: ControlFlowClass::LiveMarker,
        }
    }

    /// A live marker that also keeps `reads` alive, and whatever is alive at
    /// the given labels.
    pub fn live_marker_with(reads: Vec<Register>, live_target_labels: Vec<Label>) -> (r: OpMeta<'a>)
        ensures
            r@ == OpMetaView::<'a>::live_with(reads@, live_target_labels@),
    {
        OpMeta {
            kind: OpKind::LiveMarker,
            reads,
            writes: Vec::new(),
            target_label: None,
            live_target_labels,
            live_condition: None,
            control: ControlFlowClass::LiveMarker,
        }
    }

    /// An operation without branches.
    pub fn linear(kind: OpKind, reads: Vec<Register>, writes: Vec<Register>) -> (r: OpMeta<'a>)
        ensures
            r@ == OpMetaView::<'a>::line(kind, reads@, writes@),
    {
        OpMeta {
            kind,
            reads,
            writes,
            target_label: None,
            live_target_labels: Vec::new(),
            live_condition: None,
            control: ControlFlowClass::Linear,
        }
    }

    /// A jump to `target`.
    pub fn jump(target: Label) -> (r: OpMeta<'a>)
        ensures
            r@ == OpMetaView::<'a>::jump_to(target),
    {
        OpMeta {
            kind: OpKind::Jump,
            reads: Vec::new(),
            writes: Vec::new(),
            target_label: Some(target),
            live_target_labels: Vec::new(),
            live_condition: None,
            control: ControlFlowClass::UnconditionalJump,
        }
    }

    /// A branch to `target` that depends on one register.
    pub fn conditional_guard(cond_reg: Register, target: Label) -> (r: OpMeta<'a>)
        ensures
            r@ == OpMetaView::<'a>::guard(seq![cond_reg], target),
    {
        let reads = vec![cond_reg];
        assert(reads@ =~= seq![cond_reg]);
        OpMeta {
            kind: OpKind::GotoIfNot,
            reads,
            writes: Vec::new(),
            target_label: Some(target),
            live_target_labels: Vec::new(),
            live_condition: None,
            control: ControlFlowClass::ConditionalGuard,
        }
    }

    /// A branch to `target` that depends on a comparison of two registers.
    pub fn conditional_guard_int_eq(a_reg: Register, b_reg: Register, target: Label) -> (r: OpMeta<
        'a,
    >)
        ensures
            r@ == OpMetaView::<'a>::guard(seq![a_reg, b_reg], target),
    {
        let reads = vec![a_reg, b_reg];
        assert(reads@ =~= seq![a_reg, b_reg]);
        OpMeta {
            kind: OpKind::GotoIfNot,
            reads,
            writes: Vec::new(),
            target_label: Some(target),
            live_target_labels: Vec::new(),
            live_condition: None,
            control: ControlFlowClass::ConditionalGuard,
        }
    }

    /// The place where `target` stands.
    pub fn label_def(target: Label) -> (r: OpMeta<'a>)
        ensures
            r@ == OpMetaView::<'a>::defines(target),
    {
        OpMeta {
            kind: OpKind::MarkLabel,
            reads: Vec::new(),
            writes: Vec::new(),
            target_label: Some(target),
            live_target_labels: Vec::new(),
            live_condition: None,
            control: ControlFlowClass::LabelDef,
        }
    }

    /// A builder statement that emits no operation.
    pub fn aux() -> (r: OpMeta<'a>)
        ensures
            r@ == OpMetaView::<'a>::auxiliary(),
    {
        OpMeta::linear(OpKind::Aux, Vec::new(), Vec::new())
    }

    /// An operation that nothing follows.
    pub fn terminal(reads: Vec<Register>) -> (r: OpMeta<'a>)
        ensures
            r@ == OpMetaView::<'a>::end(reads@),
    {
        OpMeta {
            kind: OpKind::Aux,
            reads,
            writes: Vec::new(),
            target_label: None,
            live_target_labels: Vec::new(),
            live_condition: None,
            control: ControlFlowClass::Terminal,
        }
    }

    /// The same description again.
    pub fn copied(&self) -> (r: OpMeta<'a>)
        ensures
            r@ == self@,
    {
        OpMeta {
            kind: self.kind,
            reads: copy_list(&self.reads),
            writes: copy_list(&self.writes),
            target_label: self.target_label,
            live_target_labels: copy_list(&self.live_target_labels),
            live_condition: self.live_condition,
            control: self.control,
        }
    }
}

/// The same list again.
pub fn copy_list<T: Copy>(v: &Vec<T>) -> (r: Vec<T>)
    ensures
        r@ == v@,
{
    let mut out: Vec<T> = Vec::new();
    let mut i: usize = 0;
    while i < v.len()
        invariant
            i <= v.len(),
            out@ == v@.take(i as int),
        decreases v.len() - i,
    {
        out.push(v[i]);
        i = i + 1;
    }
    assert(out@ =~= v@);
    out
}

// ── Statements ───────────────────────────────────────────────────────

/// Trace opcodes of the integer operations.
#[derive(Clone, Copy, Debug, PartialEq, Eq, Structural)]
pub enum IntOpcode {
    IntAdd,
    IntSub,
    IntMul,
    IntFloorDiv,
    IntMod,
    IntAnd,
    IntOr,
    IntXor,
    IntLshift,
    IntRshift,
    IntEq,
    IntNe,
    IntLt,
    IntLe,
    IntGt,
    IntGe,
}

/// A constant named by a pattern.
#[derive(Clone, Copy)]
pub enum PatValue<'a> {
    Int(i64),
    /// The constant whose path has the given tokens.
    Path(NodeId),
    Ident(&'a String),
}

/// A statement without lists. Destination registers come first.
#[derive(Clone, Copy)]
pub enum Op<'a> {
    NewLabel(Label),
    MarkLabel(Label),
    Jump(Label),
    GotoIfNotIntIsTrue(u16, Label),
    GotoIfNotIntEq(u16, u16, Label),
    GotoIfNotIntLt(u16, u16, Label),
    /// A source variable that only exists so that quoted code compiles.
    LocalZero(&'a String),
    /// The source variable `name` is given the quoted expression, and the
    /// register its value.
    RuntimeConst(u16, &'a String, &'a Expr),
    LoadConst(u16, i64),
    /// The named constant.
    LoadNamedConst(u16, &'a String),
    LoadPatValue(u16, PatValue<'a>),
    MoveI(u16, u16),
    Binop(u16, IntOpcode, u16, u16),
    IntNeg(u16, u16),
    LoopHeader,
    /// Base, field, source.
    VableSetfield(ValueKind, u16, u16, u16),
    /// Base, array, index, source.
    VableSetarrayitem(ValueKind, u16, u16, u16, u16),
    /// Destination, base, field.
    VableGetfield(ValueKind, u16, u16, u16),
    /// Destination, base, array, index.
    VableGetarrayitem(ValueKind, u16, u16, u16, u16),
    /// Destination, base, array.
    VableArraylen(u16, u16, u16),
    VableForce(u16),
    /// Field, source.
    StoreStateField(u16, u16),
    /// Field, destination.
    LoadStateField(u16, u16),
    /// Array, index, source.
    StoreStateVarray(u16, u16, u16),
    StoreStateArray(u16, u16, u16),
    /// Array, index, destination.
    LoadStateVarray(u16, u16, u16),
    LoadStateArray(u16, u16, u16),
    /// Destination, byte array, index.
    GetarrayitemGcI(u16, u16, u16),
    GuardValue(BindingKind, u16),
    LivePlaceholder,
    Abort,
    /// Makes room for the entry registers of a dispatch body.
    EnsureEntryRegs,
    Return(BindingKind, u16),
    VoidReturn,
}

/// One list per register bank.
pub struct Banked<T> {
    pub i: T,
    pub r: T,
    pub f: T,
}

/// The argument lists that an inline call has: references only, integers and
/// references, or all three banks.
#[derive(Clone, Copy, Debug, PartialEq, Eq, Structural)]
pub enum InlineFamily {
    R,
    Ir,
    Irf,
}

/// The family used for each bank of the callee's result.
#[derive(Clone, Copy, Debug, PartialEq, Eq, Structural)]
pub struct InlineShape {
    pub on_int: InlineFamily,
    pub on_ref: InlineFamily,
    pub on_float: InlineFamily,
}

/// How a call finds its callee.
#[derive(Clone, Copy)]
pub enum CallTarget<'a> {
    /// The address of the callee.
    FnPtr(&'a Expr),
    /// The address of the named function.
    Shim(&'a String),
    /// The call targets that the callee's policy publishes; at least one of
    /// them must be there.
    Wrapped(&'a Expr),
    /// The address of a method of the named type.
    Method(&'a String, &'a String),
}

/// What is done with an unsupported policy byte when the lowered code runs.
#[derive(Clone, Copy, Debug, PartialEq, Eq, Structural)]
pub enum InferenceFailureMode {
    ReturnNone,
    Panic,
}

/// Callee of a conditional call or of a recorded result. Where the policy is
/// inferred, `check` decides at run time which policy bytes are accepted.
#[derive(Clone, Copy)]
pub struct RegisteredTarget<'a> {
    pub func: &'a Expr,
    pub slot: CondCallEffectSlot,
    pub wrapped: bool,
    pub check: Option<PolicyCheck>,
}

/// Body of a dispatch arm's own JitCode.
#[derive(Clone, Copy, Debug, PartialEq, Eq, Structural)]
pub enum ArmBody {
    /// The body at this place of the list of lowered arm bodies.
    Lowered(usize),
    Empty,
    Abort,
    AbortPermanent,
}

/// A builder statement. `R` lists registers, `P` lists pairs of a caller and a
/// callee register, `B` lists register bytes.
#[allow(inconsistent_fields)]
pub enum Instr<'a, R, P, B> {
    Op(Op<'a>),
    Call {
        target: CallTarget<'a>,
        family: CallFamily,
        result: CallResultKind,
        args: R,
        dst: Option<u16>,
    },
    /// Call whose policy byte is read at run time; it leaves nothing behind.
    InferredVoidCall { func: &'a Expr, args: R },
    /// Call whose policy byte is read at run time; it leaves an integer.
    InferredIntCall {
        func: &'a Expr,
        args: R,
        dst: u16,
        shape: InlineShape,
        inline_args: Banked<P>,
        on_unsupported: InferenceFailureMode,
    },
    ConditionalCall { target: RegisteredTarget<'a>, cond: u16, args: R },
    ConditionalCallValue {
        target: RegisteredTarget<'a>,
        kind: BindingKind,
        value: u16,
        args: R,
        dst: u16,
    },
    RecordKnownResult { target: RegisteredTarget<'a>, kind: BindingKind, result: u16, args: R },
    InlineCall { func: &'a Expr, shape: InlineShape, args: Banked<P>, dst: u16 },
    ArmCall { body: ArmBody, family: InlineFamily, args: Banked<P> },
    Live { condition: Option<LiveMarkerCondition<'a>>, triple: Banked<B> },
    JitMergePoint { greens: Banked<B>, reds: Banked<B> },
}

/// A builder statement.
pub type Stmt<'a> = Instr<'a, Vec<Register>, Vec<(u16, u16)>, Vec<u8>>;

/// Model of a [`Stmt`].
pub type StmtView<'a> = Instr<'a, Seq<Register>, Seq<(u16, u16)>, Seq<u8>>;

pub open spec fn banked_view<T>(b: Banked<Vec<T>>) -> Banked<Seq<T>> {
    Banked { i: b.i@, r: b.r@, f: b.f@ }
}

/// Model of a statement: its lists as sequences.
pub open spec fn stmt_view<'a>(s: Stmt<'a>) -> StmtView<'a> {
    match s {
        Instr::Op(op) => Instr::Op(op),
        Instr::Call { target, family, result, args, dst } => Instr::Call {
            target,
            family,
            result,
            args: args@,
            dst,
        },
        Instr::InferredVoidCall { func, args } => Instr::InferredVoidCall { func, args: args@ },
        Instr::InferredIntCall { func, args, dst, shape, inline_args, on_unsupported } =>
            Instr::InferredIntCall {
            func,
            args: args@,
            dst,
            shape,
            inline_args: banked_view(inline_args),
            on_unsupported,
        },
        Instr::ConditionalCall { target, cond, args } => Instr::ConditionalCall {
            target,
            cond,
            args: args@,
        },
        Instr::ConditionalCallValue { target, kind, value, args, dst } =>
            Instr::ConditionalCallValue { target, kind, value, args: args@, dst },
        Instr::RecordKnownResult { target, kind, result, args } => Instr::RecordKnownResult {
            target,
            kind,
            result,
            args: args@,
        },
        Instr::InlineCall { func, shape, args, dst } => Instr::InlineCall {
            func,
            shape,
            args: banked_view(args),
            dst,
        },
        Instr::ArmCall { body, family, args } => Instr::ArmCall {
            body,
            family,
            args: banked_view(args),
        },
        Instr::Live { condition, triple } => Instr::Live {
            condition,
            triple: banked_view(triple),
        },
        Instr::JitMergePoint { greens, reds } => Instr::JitMergePoint {
            greens: banked_view(greens),
            reds: banked_view(reds),
        },
    }
}

fn copy_banked<T: Copy>(b: &Banked<Vec<T>>) -> (r: Banked<Vec<T>>)
    ensures
        banked_view(r) == banked_view(*b),
{
    Banked { i: copy_list(&b.i), r: copy_list(&b.r), f: copy_list(&b.f) }
}

/// The same statement again.
pub fn copy_stmt<'a>(s: &Stmt<'a>) -> (r: Stmt<'a>)
    ensures
        stmt_view(r) == stmt_view(*s),
{
    match s {
        Instr::Op(op) => Instr::Op(*op),
        Instr::Call { target, family, result, args, dst } => Instr::Call {
            target: *target,
            family: *family,
            result: *result,
            args: copy_list(args),
            dst: *dst,
        },
        Instr::InferredVoidCall { func, args } => Instr::InferredVoidCall {
            func: *func,
            args: copy_list(args),
        },
        Instr::InferredIntCall { func, args, dst, shape, inline_args, on_unsupported } =>
            Instr::InferredIntCall {
            func: *func,
            args: copy_list(args),
            dst: *dst,
            shape: *shape,
            inline_args: copy_banked(inline_args),
            on_unsupported: *on_unsupported,
        },
        Instr::ConditionalCall { target, cond, args } => Instr::ConditionalCall {
            target: *target,
            cond: *cond,
            args: copy_list(args),
        },
        Instr::ConditionalCallValue { target, kind, value, args, dst } =>
            Instr::ConditionalCallValue {
            target: *target,
            kind: *kind,
            value: *value,
            args: copy_list(args),
            dst: *dst,
        },
        Instr::RecordKnownResult { target, kind, result, args } => Instr::RecordKnownResult {
            target: *target,
            kind: *kind,
            result: *result,
            args: copy_list(args),
        },
        Instr::InlineCall { func, shape, args, dst } => Instr::InlineCall {
            func: *func,
            shape: *shape,
            args: copy_banked(args),
            dst: *dst,
        },
        Instr::ArmCall { body, family, args } => Instr::ArmCall {
            body: *body,
            family: *family,
            args: copy_banked(args),
        },
        Instr::Live { condition, triple } => Instr::Live {
            condition: *condition,
            triple: copy_banked(triple),
        },
        Instr::JitMergePoint { greens, reds } => Instr::JitMergePoint {
            greens: copy_banked(greens),
            reds: copy_banked(reds),
        },
    }
}

/// The models of a list of statements.
pub open spec fn stmt_views<'a>(v: Seq<Stmt<'a>>) -> Seq<StmtView<'a>> {
    Seq::new(v.len(), |i: int| stmt_view(v[i]))
}

/// Statements and their descriptions, side by side.
pub struct LoweredSequence<'a> {
    pub statements: Vec<Stmt<'a>>,
    pub op_metadata: Vec<OpMeta<'a>>,
}

impl<'a> LoweredSequence<'a> {
    /// Pairs statements with their descriptions.
    pub fn new(statements: Vec<Stmt<'a>>, op_metadata: Vec<OpMeta<'a>>) -> (r: LoweredSequence<'a>)
        requires
            statements@.len() == op_metadata@.len(),
        ensures
            r.statements == statements,
            r.op_metadata == op_metadata,
    {
        LoweredSequence { statements, op_metadata }
    }
}

} // verus!
