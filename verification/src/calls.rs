//! Emission of calls once their arguments are in registers.

use vstd::prelude::*;

use crate::ast::Expr;
use crate::config::CallPolicySpec;
use crate::kinds::{Binding, BindingKind};
use crate::lowerer::{
    binding_slots, CallMacro, first_overflow, has_named_callee, int_reg, int_slot, is_named_callee,
    LowerContext, Lowerer, LowerState, one_slot, registers, Reject, resolved_policy, Slot, slot,
    slot_of, slot_registers, slots_of,
};
use crate::ops::{
    Banked, banked_view, CallTarget, InlineFamily, InlineShape, Instr, LiveMarkerCondition, OpKind,
    RegisteredTarget,
};
use crate::policy::{
    call_policy_effect_slot, call_policy_shape, CallFamily, CallPolicyKind, CallResultKind,
    CondCallEffectSlot, family_slot, policy_shape, PolicyCheck, RaisingCodes, result_bank,
};
use crate::policy_bytes::{byte_for, has_byte, lemma_meaning, verdict};

verus! {

/// The most arguments that a helper call may have.
pub const MAX_HELPER_CALL_ARITY: usize = 16;

// ── Arguments of inline calls ────────────────────────────────────────

/// `n` as a register number, or the largest register number.
pub open spec fn clamped(n: nat) -> u16 {
    if n >= u16::MAX {
        u16::MAX
    } else {
        n as u16
    }
}

/// The arguments of one bank, each with the callee register that receives it:
/// the callee's registers are numbered from 0 in each bank.
pub open spec fn bank_pairs(bindings: Seq<Binding>, kind: BindingKind) -> Seq<(u16, u16)>
    decreases bindings.len(),
{
    if bindings.len() == 0 {
        seq![]
    } else {
        let before = bank_pairs(bindings.drop_last(), kind);
        if bindings.last().kind == kind {
            before.push((bindings.last().reg, clamped(before.len())))
        } else {
            before
        }
    }
}

/// The arguments of each bank with the callee registers that receive them.
#[verifier::opaque]
pub open spec fn inline_args(bindings: Seq<Binding>) -> Banked<Seq<(u16, u16)>> {
    Banked {
        i: bank_pairs(bindings, BindingKind::Int),
        r: bank_pairs(bindings, BindingKind::Ref),
        f: bank_pairs(bindings, BindingKind::Float),
    }
}

/// The arguments of one bank, each with the callee register that receives it.
pub fn inline_arg_pairs(bindings: &Vec<Binding>, kind: BindingKind) -> (r: Vec<(u16, u16)>)
    ensures
        r@ == bank_pairs(bindings@, kind),
{
    let mut out: Vec<(u16, u16)> = Vec::new();
    let mut next: u16 = 0;
    let mut i: usize = 0;
    while i < bindings.len()
        invariant
            i <= bindings.len(),
            out@ == bank_pairs(bindings@.take(i as int), kind),
            next == clamped(out@.len()),
        decreases bindings.len() - i,
    {
        assert(bindings@.take(i + 1).drop_last() =~= bindings@.take(i as int));
        if bindings[i].kind == kind {
            out.push((bindings[i].reg, next));
            next = crate::lowerer::successor(next);
        }
        i = i + 1;
    }
    assert(bindings@.take(bindings@.len() as int) =~= bindings@);
    out
}

fn inline_arg_lists(bindings: &Vec<Binding>) -> (r: Banked<Vec<(u16, u16)>>)
    ensures
        banked_view(r) == inline_args(bindings@),
{
    proof {
        reveal(inline_args);
    }
    Banked {
        i: inline_arg_pairs(bindings, BindingKind::Int),
        r: inline_arg_pairs(bindings, BindingKind::Ref),
        f: inline_arg_pairs(bindings, BindingKind::Float),
    }
}

/// Whether one of the bindings is of the given bank.
pub open spec fn has_kind(bindings: Seq<Binding>, kind: BindingKind) -> bool {
    exists|i: int| 0 <= i < bindings.len() && (#[trigger] bindings[i]).kind == kind
}

/// The smallest family with a list for every argument.
pub open spec fn arg_family(has_int: bool, has_float: bool) -> InlineFamily {
    if has_float {
        InlineFamily::Irf
    } else if has_int {
        InlineFamily::Ir
    } else {
        InlineFamily::R
    }
}

/// The families of an inline call: the smallest one that fits the arguments,
/// and the one with all banks for a float result.
#[verifier::opaque]
pub open spec fn inline_shape(bindings: Seq<Binding>) -> InlineShape {
    let family = arg_family(
        has_kind(bindings, BindingKind::Int),
        has_kind(bindings, BindingKind::Float),
    );
    InlineShape { on_int: family, on_ref: family, on_float: InlineFamily::Irf }
}

fn any_of_kind(bindings: &Vec<Binding>, kind: BindingKind) -> (r: bool)
    ensures
        r == has_kind(bindings@, kind),
{
    let mut i: usize = 0;
    while i < bindings.len()
        invariant
            i <= bindings.len(),
            forall|j: int| 0 <= j < i ==> (#[trigger] bindings@[j]).kind != kind,
        decreases bindings.len() - i,
    {
        if bindings[i].kind == kind {
            assert(bindings@[i as int].kind == kind);
            return true;
        }
        i = i + 1;
    }
    false
}

/// The smallest family with a list for every argument.
pub fn family_for(has_int: bool, has_float: bool) -> (r: InlineFamily)
    ensures
        r == arg_family(has_int, has_float),
{
    if has_float {
        InlineFamily::Irf
    } else if has_int {
        InlineFamily::Ir
    } else {
        InlineFamily::R
    }
}

/// The families and the argument lists of an inline call.
pub fn inline_call_parts(bindings: &Vec<Binding>) -> (r: (InlineShape, Banked<Vec<(u16, u16)>>))
    ensures
        r.0 == inline_shape(bindings@),
        banked_view(r.1) == inline_args(bindings@),
{
    proof {
        reveal(inline_shape);
    }
    let family = family_for(
        any_of_kind(bindings, BindingKind::Int),
        any_of_kind(bindings, BindingKind::Float),
    );
    (
        InlineShape { on_int: family, on_ref: family, on_float: InlineFamily::Irf },
        inline_arg_lists(bindings),
    )
}

/// The registers of the arguments, if all of them are integers.
#[verifier::opaque]
pub open spec fn int_regs(bindings: Seq<Binding>) -> Option<Seq<u16>> {
    if forall|i: int| 0 <= i < bindings.len() ==> (#[trigger] bindings[i]).kind is Int {
        Some(Seq::new(bindings.len(), |i: int| bindings[i].reg))
    } else {
        None
    }
}

/// The registers of the arguments, if all of them are integers.
pub fn int_arg_regs(bindings: &[Binding]) -> (r: Option<Vec<u16>>)
    ensures
        match r {
            Some(v) => int_regs(bindings@) == Some(v@),
            None => int_regs(bindings@) is None,
        },
{
    proof {
        reveal(int_regs);
    }
    let mut out: Vec<u16> = Vec::new();
    let mut i: usize = 0;
    while i < bindings.len()
        invariant
            i <= bindings.len(),
            out.len() == i,
            forall|j: int| 0 <= j < i ==> (#[trigger] bindings@[j]).kind is Int,
            forall|j: int| 0 <= j < i ==> out@[j] == (#[trigger] bindings@[j]).reg,
        decreases bindings.len() - i,
    {
        proof {
            reveal(int_regs);
        }
        match bindings[i].kind {
            BindingKind::Int => out.push(bindings[i].reg),
            BindingKind::Ref | BindingKind::Float => {
                assert(!(bindings@[i as int].kind is Int));
                return None;
            },
        }
        i = i + 1;
    }
    assert(out@ =~= Seq::new(bindings@.len(), |j: int| bindings@[j].reg));
    Some(out)
}

/// Whether one of the values depends on the interpreter's stack.
#[verifier::opaque]
pub open spec fn any_depends(bindings: Seq<Binding>) -> bool {
    exists|i: int| 0 <= i < bindings.len() && (#[trigger] bindings[i]).depends_on_stack
}

/// Whether one of the values depends on the interpreter's stack.
pub fn any_depends_on_stack(bindings: &Vec<Binding>) -> (r: bool)
    ensures
        r == any_depends(bindings@),
{
    proof {
        reveal(any_depends);
    }
    let mut i: usize = 0;
    while i < bindings.len()
        invariant
            i <= bindings.len(),
            forall|j: int| 0 <= j < i ==> !(#[trigger] bindings@[j]).depends_on_stack,
        decreases bindings.len() - i,
    {
        proof {
            reveal(any_depends);
        }
        if bindings[i].depends_on_stack {
            assert(bindings@[i as int].depends_on_stack);
            return true;
        }
        i = i + 1;
    }
    false
}

// ── Calls with a policy ──────────────────────────────────────────────

/// How a policy reaches its callee.
pub open spec fn policy_target<'a>(func: &'a Expr, wrapped: bool) -> CallTarget<'a> {
    if wrapped {
        CallTarget::Wrapped(func)
    } else {
        CallTarget::FnPtr(func)
    }
}

/// A call is added. Its arguments are read, and its result, if it leaves one, is
/// written to the destination.
#[verifier::opaque]
pub open spec fn emit_call<'a>(
    s: LowerState<'a>,
    target: CallTarget<'a>,
    family: CallFamily,
    result: CallResultKind,
    args: Seq<Binding>,
    dst: u16,
) -> LowerState<'a> {
    let reads = slots_of(args);
    match result_bank(result) {
        None => s.emit(
            OpKind::Call,
            reads,
            seq![],
            Instr::Call { target, family, result, args: registers(reads), dst: None },
        ),
        Some(bank) => s.emit(
            OpKind::Call,
            reads,
            seq![Slot { kind: bank, reg: dst }],
            Instr::Call { target, family, result, args: registers(reads), dst: Some(dst) },
        ),
    }
}

/// A call in statement position under a policy. A result is dropped into a
/// register of its own. Inline policies are not lowered here, nor are wrapped
/// callees without a name.
#[verifier::opaque]
pub open spec fn call_stmt<'a>(
    s: LowerState<'a>,
    func: &'a Expr,
    args: Seq<Binding>,
    policy: CallPolicySpec,
) -> (LowerState<'a>, bool) {
    match policy {
        CallPolicySpec::Explicit(kind) => {
            let (family, result, wrapped) = policy_shape(kind);
            if family is Inline || (wrapped && !is_named_callee(*func)) {
                (s, false)
            } else if result is Void {
                (emit_call(s, policy_target(func, wrapped), family, result, args, 0), true)
            } else {
                (
                    emit_call(
                        s.reg_taken(),
                        policy_target(func, wrapped),
                        family,
                        result,
                        args,
                        s.next_reg,
                    ),
                    true,
                )
            }
        },
        CallPolicySpec::Infer => if is_named_callee(*func) {
            let reads = slots_of(args);
            (
                s.emit(
                    OpKind::Call,
                    reads,
                    seq![],
                    Instr::InferredVoidCall { func, args: registers(reads) },
                ),
                true,
            )
        } else {
            (s, false)
        },
    }
}

/// A call in value position under a policy; its result goes to `reg`, which was
/// handed out before. Calls that leave nothing are not lowered here, nor are
/// wrapped, inlined or inferred callees without a name.
#[verifier::opaque]
pub open spec fn call_result<'a>(
    s: LowerState<'a>,
    func: &'a Expr,
    args: Seq<Binding>,
    policy: CallPolicySpec,
    reg: u16,
) -> (LowerState<'a>, Option<Binding>) {
    let reads = slots_of(args);
    match policy {
        CallPolicySpec::Explicit(kind) => {
            let (family, result, wrapped) = policy_shape(kind);
            match result_bank(result) {
                None => (s, None),
                Some(bank) => {
                    let value = Binding { reg, kind: bank, depends_on_stack: any_depends(args) };
                    if family is Inline {
                        if is_named_callee(*func) {
                            (
                                s.prebuild_helper(func).emit(
                                    OpKind::InlineCall,
                                    reads,
                                    seq![Slot { kind: bank, reg }],
                                    Instr::InlineCall {
                                        func,
                                        shape: inline_shape(args),
                                        args: inline_args(args),
                                        dst: reg,
                                    },
                                ).live(),
                                Some(value),
                            )
                        } else {
                            (s, None)
                        }
                    } else if wrapped && !is_named_callee(*func) {
                        (s, None)
                    } else {
                        (
                            emit_call(s, policy_target(func, wrapped), family, result, args, reg),
                            Some(value),
                        )
                    }
                },
            }
        },
        CallPolicySpec::Infer => if is_named_callee(*func) {
            (
                s.prebuild_helper(func).emit(
                    OpKind::Call,
                    reads,
                    seq![int_slot(reg)],
                    Instr::InferredIntCall {
                        func,
                        args: registers(reads),
                        dst: reg,
                        shape: inline_shape(args),
                        inline_args: inline_args(args),
                        on_unsupported: s.ctx.inference_failure_mode,
                    },
                ).live_if(LiveMarkerCondition { func, codes: RaisingCodes::ValueCall }),
                Some(
                    Binding {
                        reg,
                        kind: BindingKind::Int,
                        depends_on_stack: any_depends(args),
                    },
                ),
            )
        } else {
            (s, None)
        },
    }
}

impl<'a> Lowerer<'a> {
    /// Adds a call of `target`.
    pub fn emit_policy_call(
        &mut self,
        target: CallTarget<'a>,
        family: CallFamily,
        result: CallResultKind,
        args: &Vec<Binding>,
        dst: u16,
    )
        ensures
            final(self)@ == emit_call(old(self)@, target, family, result, args@, dst),
    {
        proof {
            reveal(emit_call);
            reveal(LowerState::emit);
        }
        let reads = binding_slots(args);
        let bank = match result {
            CallResultKind::Void => None,
            CallResultKind::Int => Some(BindingKind::Int),
            CallResultKind::Ref => Some(BindingKind::Ref),
            CallResultKind::Float => Some(BindingKind::Float),
        };
        match slot_registers(&reads) {
            Err(i) => self.reject(Reject::RegisterIndex(i)),
            Ok(regs) => match bank {
                None => self.emit_linear(
                    OpKind::Call,
                    reads,
                    crate::lowerer::no_slots(),
                    Instr::Call { target, family, result, args: regs, dst: None },
                ),
                Some(kind) => self.emit_linear(
                    OpKind::Call,
                    reads,
                    one_slot(slot(kind, dst)),
                    Instr::Call { target, family, result, args: regs, dst: Some(dst) },
                ),
            },
        }
    }

    /// Adds a call in statement position.
    pub fn finish_call_stmt(
        &mut self,
        func: &'a Expr,
        args: &Vec<Binding>,
        policy: CallPolicySpec,
    ) -> (r: Option<()>)
        ensures
            final(self)@ == call_stmt(old(self)@, func, args@, policy).0,
            r is Some == call_stmt(old(self)@, func, args@, policy).1,
    {
        proof {
            reveal(call_stmt);
            reveal(LowerState::emit);
        }
        match policy {
            CallPolicySpec::Explicit(kind) => {
                let (family, result, wrapped) = call_policy_shape(kind);
                let named = has_named_callee(func);
                if family == CallFamily::Inline || (wrapped && !named) {
                    return None;
                }
                let target = if wrapped {
                    CallTarget::Wrapped(func)
                } else {
                    CallTarget::FnPtr(func)
                };
                if result == CallResultKind::Void {
                    self.emit_policy_call(target, family, result, args, 0);
                } else {
                    let throwaway_reg: u16 = self.alloc_reg();
                    self.emit_policy_call(target, family, result, args, throwaway_reg);
                }
                Some(())
            },
            CallPolicySpec::Infer => {
                if !has_named_callee(func) {
                    return None;
                }
                let reads = binding_slots(args);
                match slot_registers(&reads) {
                    Err(i) => self.reject(Reject::RegisterIndex(i)),
                    Ok(regs) => self.emit_linear(
                        OpKind::Call,
                        reads,
                        crate::lowerer::no_slots(),
                        Instr::InferredVoidCall { func, args: regs },
                    ),
                }
                Some(())
            },
        }
    }

    /// Adds a call in value position.
    pub fn finish_call_value(
        &mut self,
        func: &'a Expr,
        args: &Vec<Binding>,
        policy: CallPolicySpec,
        reg: u16,
    ) -> (r: Option<Binding>)
        ensures
            final(self)@ == call_result(old(self)@, func, args@, policy, reg).0,
            r == call_result(old(self)@, func, args@, policy, reg).1,
    {
        proof {
            reveal(call_result);
            reveal(LowerState::emit);
        }
        let depends_on_stack = any_depends_on_stack(args);
        match policy {
            CallPolicySpec::Explicit(kind) => {
                let (family, result, wrapped) = call_policy_shape(kind);
                let bank = match result {
                    CallResultKind::Void => {
                        return None;
                    },
                    CallResultKind::Int => BindingKind::Int,
                    CallResultKind::Ref => BindingKind::Ref,
                    CallResultKind::Float => BindingKind::Float,
                };
                let named = has_named_callee(func);
                if family == CallFamily::Inline {
                    if !named {
                        return None;
                    }
                    let (shape, pairs) = inline_call_parts(args);
                    self.queue_prebuild(func);
                    self.emit_linear(
                        OpKind::InlineCall,
                        binding_slots(args),
                        one_slot(slot(bank, reg)),
                        Instr::InlineCall { func, shape, args: pairs, dst: reg },
                    );
                    self.emit_live();
                } else {
                    if wrapped && !named {
                        return None;
                    }
                    let target = if wrapped {
                        CallTarget::Wrapped(func)
                    } else {
                        CallTarget::FnPtr(func)
                    };
                    self.emit_policy_call(target, family, result, args, reg);
                }
                Some(Binding { reg, kind: bank, depends_on_stack })
            },
            CallPolicySpec::Infer => {
                if !has_named_callee(func) {
                    return None;
                }
                let (shape, pairs) = inline_call_parts(args);
                let on_unsupported = self.ctx.inference_failure_mode;
                self.queue_prebuild(func);
                let reads = binding_slots(args);
                match slot_registers(&reads) {
                    Err(i) => self.reject(Reject::RegisterIndex(i)),
                    Ok(regs) => self.emit_linear(
                        OpKind::Call,
                        reads,
                        one_slot(int_reg(reg)),
                        Instr::InferredIntCall {
                            func,
                            args: regs,
                            dst: reg,
                            shape,
                            inline_args: pairs,
                            on_unsupported,
                        },
                    ),
                }
                self.emit_live_if(LiveMarkerCondition { func, codes: RaisingCodes::ValueCall });
                Some(Binding { reg, kind: BindingKind::Int, depends_on_stack })
            },
        }
    }
}

// ── Conditional calls and recorded results ───────────────────────────

/// The policy that a macro call assumes of a callee whose policy is inferred.
pub open spec fn default_policy(mac: CallMacro, kind: BindingKind) -> CallPolicyKind {
    match mac {
        CallMacro::ConditionalCall => CallPolicyKind::ResidualVoidWrapped,
        _ => match kind {
            BindingKind::Int => CallPolicyKind::ElidableIntWrapped,
            BindingKind::Ref => CallPolicyKind::ElidableRefWrapped,
            BindingKind::Float => CallPolicyKind::ElidableFloatWrapped,
        },
    }
}

/// Which policy bytes the macro call accepts at run time.
pub open spec fn run_time_check(mac: CallMacro, kind: BindingKind, args_empty: bool) -> PolicyCheck {
    match mac {
        CallMacro::ConditionalCall => PolicyCheck::ConditionalCall { args_empty },
        CallMacro::ConditionalCallElidable => PolicyCheck::ConditionalValue { kind, args_empty },
        CallMacro::RecordKnownResult => PolicyCheck::KnownResult { kind },
    }
}

/// The policy of a macro's callee, and whether it is inferred. A callee without a
/// declared policy has the inferred one where it is a path, so that its policy
/// can be read at run time; otherwise it has none.
pub open spec fn macro_policy(ctx: LowerContext, func: Expr, inferred_default: CallPolicyKind) -> Option<
    (CallPolicyKind, bool),
> {
    match resolved_policy(ctx, func) {
        Some(CallPolicySpec::Explicit(k)) => Some((k, false)),
        Some(CallPolicySpec::Infer) => Some((inferred_default, true)),
        None => if is_named_callee(func) {
            Some((inferred_default, true))
        } else {
            None
        },
    }
}

/// The callee of a macro call, or why it is no callee for it. `kind` is the bank
/// of the value that the macro is about.
#[verifier::opaque]
pub open spec fn macro_target<'a>(
    ctx: LowerContext<'a>,
    func: &'a Expr,
    mac: CallMacro,
    kind: BindingKind,
    args_empty: bool,
) -> Result<RegisteredTarget<'a>, Reject> {
    match macro_policy(ctx, *func, default_policy(mac, kind)) {
        None => Err(Reject::UnresolvedPolicy(mac)),
        Some((policy, inferred)) => {
            let (family, result, wrapped) = policy_shape(policy);
            if mac is ConditionalCall && !(result is Void) {
                Err(Reject::NotVoid(policy))
            } else if !(mac is ConditionalCall) && result_bank(result) != Some(kind) {
                Err(Reject::ResultKindMismatch(mac, policy))
            } else {
                match family_slot(family) {
                    None => Err(Reject::NoEffectSlot(mac, policy)),
                    Some(slot) => if !(mac is RecordKnownResult) && !inferred
                        && slot is LoopInvariant && !args_empty {
                        Err(Reject::LoopInvariantArguments(mac, policy))
                    } else if mac is RecordKnownResult && !slot.elidable() {
                        Err(Reject::NotElidable(policy))
                    } else if wrapped && !is_named_callee(*func) {
                        Err(Reject::PolicyPathMissing)
                    } else {
                        Ok(
                            RegisteredTarget {
                                func,
                                slot,
                                wrapped,
                                check: if inferred {
                                    Some(run_time_check(mac, kind, args_empty))
                                } else {
                                    None
                                },
                            },
                        )
                    },
                }
            }
        },
    }
}

/// The policy bytes after which the macro call is followed by a live marker.
pub open spec fn raising_codes(mac: CallMacro, kind: BindingKind) -> RaisingCodes {
    match mac {
        CallMacro::ConditionalCall => RaisingCodes::ConditionalCall,
        CallMacro::ConditionalCallElidable => match kind {
            BindingKind::Int => RaisingCodes::ConditionalValueInt,
            BindingKind::Ref => RaisingCodes::ConditionalValueRef,
            BindingKind::Float => RaisingCodes::Never,
        },
        CallMacro::RecordKnownResult => match kind {
            BindingKind::Int => RaisingCodes::KnownResultInt,
            BindingKind::Ref => RaisingCodes::KnownResultRef,
            BindingKind::Float => RaisingCodes::Never,
        },
    }
}

/// The live marker after a macro call: there is one where the callee can raise,
/// which for an inferred policy is known at run time.
#[verifier::opaque]
pub open spec fn after_macro<'a>(
    s: LowerState<'a>,
    target: RegisteredTarget<'a>,
    codes: RaisingCodes,
) -> LowerState<'a> {
    if target.check is Some {
        s.live_if(LiveMarkerCondition { func: target.func, codes })
    } else if target.slot.raises() {
        s.live()
    } else {
        s
    }
}

/// The rest of `conditional_call!` once its condition and arguments are in
/// registers.
#[verifier::opaque]
pub open spec fn conditional_call_tail<'a>(
    s: LowerState<'a>,
    func: &'a Expr,
    cond: u16,
    args: Seq<Binding>,
) -> (LowerState<'a>, bool) {
    let mac = CallMacro::ConditionalCall;
    match macro_target(s.ctx, func, mac, BindingKind::Int, args.len() == 0) {
        Err(why) => (s.reject(why), false),
        Ok(target) => {
            let arg_slots = slots_of(args);
            let s1 = s.emit(
                OpKind::Call,
                seq![int_slot(cond)] + arg_slots,
                seq![],
                Instr::ConditionalCall { target, cond, args: registers(arg_slots) },
            );
            (after_macro(s1, target, raising_codes(mac, BindingKind::Int)), true)
        },
    }
}

/// The rest of `conditional_call_elidable!` once its value and arguments are in
/// registers. The result register is taken first.
#[verifier::opaque]
pub open spec fn conditional_value_tail<'a>(
    s: LowerState<'a>,
    func: &'a Expr,
    value: Binding,
    args: Seq<Binding>,
) -> (LowerState<'a>, Option<Binding>) {
    let mac = CallMacro::ConditionalCallElidable;
    let dst = s.next_reg;
    let s0 = s.reg_taken();
    match macro_target(s0.ctx, func, mac, value.kind, args.len() == 0) {
        Err(why) => (s0.reject(why), None),
        Ok(target) => {
            let arg_slots = slots_of(args);
            let s1 = s0.emit(
                OpKind::Call,
                seq![slot_of(value)] + arg_slots,
                seq![Slot { kind: value.kind, reg: dst }],
                Instr::ConditionalCallValue {
                    target,
                    kind: value.kind,
                    value: value.reg,
                    args: registers(arg_slots),
                    dst,
                },
            );
            (
                after_macro(s1, target, raising_codes(mac, value.kind)),
                Some(Binding::fixed(value.kind, dst)),
            )
        },
    }
}

/// The rest of `record_known_result!` once the result and the arguments are in
/// registers.
#[verifier::opaque]
pub open spec fn known_result_tail<'a>(
    s: LowerState<'a>,
    func: &'a Expr,
    result: Binding,
    args: Seq<Binding>,
) -> (LowerState<'a>, bool) {
    let mac = CallMacro::RecordKnownResult;
    match macro_target(s.ctx, func, mac, result.kind, args.len() == 0) {
        Err(why) => (s.reject(why), false),
        Ok(target) => {
            let arg_slots = slots_of(args);
            let s1 = s.emit(
                OpKind::RecordKnownResult,
                seq![slot_of(result)] + arg_slots,
                seq![],
                Instr::RecordKnownResult {
                    target,
                    kind: result.kind,
                    result: result.reg,
                    args: registers(arg_slots),
                },
            );
            (after_macro(s1, target, raising_codes(mac, result.kind)), true)
        },
    }
}

/// `first` before all the others.
fn with_first(first: Slot, rest: &Vec<Slot>) -> (r: Vec<Slot>)
    ensures
        r@ == seq![first] + rest@,
{
    let mut out: Vec<Slot> = Vec::new();
    out.push(first);
    let mut i: usize = 0;
    while i < rest.len()
        invariant
            i <= rest.len(),
            out@ == seq![first] + rest@.take(i as int),
        decreases rest.len() - i,
    {
        proof {
            reveal(call_result);
            reveal(LowerState::emit);
        }
        out.push(rest[i]);
        i = i + 1;
        assert(out@ =~= seq![first] + rest@.take(i as int));
    }
    assert(rest@.take(rest@.len() as int) =~= rest@);
    out
}

proof fn lemma_overflow_of_rest(first: Slot, rest: Seq<Slot>)
    requires
        first.reg <= 255,
    ensures
        first_overflow(seq![first] + rest) == first_overflow(rest),
{
    reveal(first_overflow);
    assert((seq![first] + rest).drop_first() =~= rest);
}

impl<'a> Lowerer<'a> {
    /// The policy of a macro's callee, and whether it is inferred. Only a callee
    /// that is no path has none.
    pub fn cond_call_policy_or_inferred_default(
        &self,
        func: &Expr,
        mac: CallMacro,
        inferred_default: CallPolicyKind,
    ) -> (r: Result<(CallPolicyKind, bool), Reject>)
        ensures
            match macro_policy(self@.ctx, *func, inferred_default) {
                Some(found) => r == Ok::<(CallPolicyKind, bool), Reject>(found),
                None => r == Err::<(CallPolicyKind, bool), Reject>(Reject::UnresolvedPolicy(mac)),
            },
    {
        match self.resolve_call_policy(func) {
            Some(spec) => match spec {
                CallPolicySpec::Explicit(k) => Ok((k, false)),
                CallPolicySpec::Infer => Ok((inferred_default, true)),
            },
            None => if has_named_callee(func) {
                Ok((inferred_default, true))
            } else {
                Err(Reject::UnresolvedPolicy(mac))
            },
        }
    }

    /// The callee of a macro call, or why it is no callee for it.
    pub fn macro_callee(
        &self,
        func: &'a Expr,
        mac: CallMacro,
        kind: BindingKind,
        args_empty: bool,
    ) -> (r: Result<RegisteredTarget<'a>, Reject>)
        ensures
            r == macro_target(self@.ctx, func, mac, kind, args_empty),
    {
        proof {
            reveal(macro_target);
        }
        let inferred_default = match mac {
            CallMacro::ConditionalCall => CallPolicyKind::ResidualVoidWrapped,
            _ => match kind {
                BindingKind::Int => CallPolicyKind::ElidableIntWrapped,
                BindingKind::Ref => CallPolicyKind::ElidableRefWrapped,
                BindingKind::Float => CallPolicyKind::ElidableFloatWrapped,
            },
        };
        let (policy, inferred) = match self.cond_call_policy_or_inferred_default(
            func,
            mac,
            inferred_default,
        ) {
            Err(why) => {
                return Err(why);
            },
            Ok(found) => found,
        };
        let (_, result, wrapped) = call_policy_shape(policy);
        if mac == CallMacro::ConditionalCall {
            if result != CallResultKind::Void {
                return Err(Reject::NotVoid(policy));
            }
        } else if !crate::policy::call_result_matches_binding(result, kind) {
            return Err(Reject::ResultKindMismatch(mac, policy));
        }
        let slot = match call_policy_effect_slot(policy) {
            None => {
                return Err(Reject::NoEffectSlot(mac, policy));
            },
            Some(slot) => slot,
        };
        if mac == CallMacro::RecordKnownResult {
            if !slot.is_elidable() {
                return Err(Reject::NotElidable(policy));
            }
        } else if !inferred && slot == CondCallEffectSlot::LoopInvariant && !args_empty {
            return Err(Reject::LoopInvariantArguments(mac, policy));
        }
        if wrapped && !has_named_callee(func) {
            return Err(Reject::PolicyPathMissing);
        }
        let check = if inferred {
            Some(
                match mac {
                    CallMacro::ConditionalCall => PolicyCheck::ConditionalCall { args_empty },
                    CallMacro::ConditionalCallElidable => PolicyCheck::ConditionalValue {
                        kind,
                        args_empty,
                    },
                    CallMacro::RecordKnownResult => PolicyCheck::KnownResult { kind },
                },
            )
        } else {
            None
        };
        Ok(RegisteredTarget { func, slot, wrapped, check })
    }

    fn emit_after_macro(&mut self, target: RegisteredTarget<'a>, codes: RaisingCodes)
        ensures
            final(self)@ == after_macro(old(self)@, target, codes),
    {
        proof {
            reveal(after_macro);
        }
        if target.check.is_some() {
            self.emit_live_if(LiveMarkerCondition { func: target.func, codes });
        } else if target.slot.can_raise() {
            self.emit_live();
        }
    }

    /// Adds a conditional call.
    pub fn finish_conditional_call(&mut self, func: &'a Expr, cond: u16, args: &Vec<Binding>) -> (r:
        Option<()>)
        ensures
            final(self)@ == conditional_call_tail(old(self)@, func, cond, args@).0,
            r is Some == conditional_call_tail(old(self)@, func, cond, args@).1,
    {
        proof {
            reveal(conditional_call_tail);
            reveal(LowerState::emit);
            reveal(first_overflow);
        }
        let mac = CallMacro::ConditionalCall;
        let target = match self.macro_callee(func, mac, BindingKind::Int, args.len() == 0) {
            Err(why) => {
                self.reject(why);
                return None;
            },
            Ok(target) => target,
        };
        let arg_slots = binding_slots(args);
        let reads = with_first(int_reg(cond), &arg_slots);
        if cond > 255 {
            self.reject(Reject::RegisterIndex(cond));
        } else {
            proof {
                lemma_overflow_of_rest(int_slot(cond), arg_slots@);
            }
            match slot_registers(&arg_slots) {
                Err(i) => self.reject(Reject::RegisterIndex(i)),
                Ok(regs) => self.emit_linear(
                    OpKind::Call,
                    reads,
                    crate::lowerer::no_slots(),
                    Instr::ConditionalCall { target, cond, args: regs },
                ),
            }
        }
        self.emit_after_macro(target, RaisingCodes::ConditionalCall);
        Some(())
    }

    /// Adds a conditional call that computes a value.
    pub fn finish_conditional_value(
        &mut self,
        func: &'a Expr,
        value: Binding,
        args: &Vec<Binding>,
    ) -> (r: Option<Binding>)
        ensures
            final(self)@ == conditional_value_tail(old(self)@, func, value, args@).0,
            r == conditional_value_tail(old(self)@, func, value, args@).1,
    {
        proof {
            reveal(conditional_value_tail);
            reveal(LowerState::emit);
            reveal(first_overflow);
        }
        let mac = CallMacro::ConditionalCallElidable;
        let dst: u16 = self.alloc_reg();
        let target = match self.macro_callee(func, mac, value.kind, args.len() == 0) {
            Err(why) => {
                self.reject(why);
                return None;
            },
            Ok(target) => target,
        };
        let arg_slots = binding_slots(args);
        let first = slot(value.kind, value.reg);
        let reads = with_first(first, &arg_slots);
        if value.reg > 255 {
            self.reject(Reject::RegisterIndex(value.reg));
        } else {
            proof {
                lemma_overflow_of_rest(first, arg_slots@);
            }
            match slot_registers(&arg_slots) {
                Err(i) => self.reject(Reject::RegisterIndex(i)),
                Ok(regs) => self.emit_linear(
                    OpKind::Call,
                    reads,
                    one_slot(slot(value.kind, dst)),
                    Instr::ConditionalCallValue {
                        target,
                        kind: value.kind,
                        value: value.reg,
                        args: regs,
                        dst,
                    },
                ),
            }
        }
        let codes = match value.kind {
            BindingKind::Int => RaisingCodes::ConditionalValueInt,
            BindingKind::Ref => RaisingCodes::ConditionalValueRef,
            BindingKind::Float => RaisingCodes::Never,
        };
        self.emit_after_macro(target, codes);
        Some(Binding::new_fixed(value.kind, dst))
    }

    /// Records the result of a call that is not made.
    pub fn finish_known_result(&mut self, func: &'a Expr, result: Binding, args: &Vec<Binding>) -> (r:
        Option<()>)
        ensures
            final(self)@ == known_result_tail(old(self)@, func, result, args@).0,
            r is Some == known_result_tail(old(self)@, func, result, args@).1,
    {
        proof {
            reveal(known_result_tail);
            reveal(LowerState::emit);
            reveal(first_overflow);
        }
        let mac = CallMacro::RecordKnownResult;
        let target = match self.macro_callee(func, mac, result.kind, args.len() == 0) {
            Err(why) => {
                self.reject(why);
                return None;
            },
            Ok(target) => target,
        };
        let arg_slots = binding_slots(args);
        let first = slot(result.kind, result.reg);
        let reads = with_first(first, &arg_slots);
        if result.reg > 255 {
            self.reject(Reject::RegisterIndex(result.reg));
        } else {
            proof {
                lemma_overflow_of_rest(first, arg_slots@);
            }
            match slot_registers(&arg_slots) {
                Err(i) => self.reject(Reject::RegisterIndex(i)),
                Ok(regs) => self.emit_linear(
                    OpKind::RecordKnownResult,
                    reads,
                    crate::lowerer::no_slots(),
                    Instr::RecordKnownResult {
                        target,
                        kind: result.kind,
                        result: result.reg,
                        args: regs,
                    },
                ),
            }
        }
        let codes = match result.kind {
            BindingKind::Int => RaisingCodes::KnownResultInt,
            BindingKind::Ref => RaisingCodes::KnownResultRef,
            BindingKind::Float => RaisingCodes::Never,
        };
        self.emit_after_macro(target, codes);
        Some(())
    }
}

// ── Laws ─────────────────────────────────────────────────────────────

/// A call macro takes a callee with a declared policy exactly where the run-time
/// check takes the byte of such a callee.
pub proof fn law_declared_and_inferred_policies_agree<'a>(
    ctx: LowerContext<'a>,
    func: &'a Expr,
    mac: CallMacro,
    kind: BindingKind,
    args_empty: bool,
    policy: CallPolicyKind,
)
    requires
        resolved_policy(ctx, *func) == Some(CallPolicySpec::Explicit(policy)),
        is_named_callee(*func),
        has_byte(policy_shape(policy).0, policy_shape(policy).1),
        !(policy_shape(policy).0 is Inline),
    ensures
        macro_target(ctx, func, mac, kind, args_empty) is Ok <==> verdict(
            run_time_check(mac, kind, args_empty),
            byte_for(policy_shape(policy).0, policy_shape(policy).1),
        ) is Accepted,
{
    let (family, result, _) = policy_shape(policy);
    lemma_meaning(byte_for(family, result), family, result);
    reveal(macro_target);
}

} // verus!
