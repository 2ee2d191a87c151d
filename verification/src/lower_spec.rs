//! The meaning of lowering. Each function gives the state after a piece of
//! source was tried, and what came of it. A piece that cannot be lowered leaves
//! behind what was emitted on the way: the caller may go on from there.

use vstd::prelude::*;

use crate::analysis::{is_promote, modifies, stmt_modifies, touches_storage, uses};
use crate::ast::{
    Arm, Block, Expr, expr_segments, ExprKind, is_local_name, Lit, Local, member_named, Pat,
    path_ends_with, path_ident, segment_names, Stmt, UnOp,
};
use crate::calls::{
    any_depends, call_result, call_stmt, conditional_call_tail, conditional_value_tail, emit_call,
    known_result_tail, MAX_HELPER_CALL_ARITY,
};
use crate::config::{CallPolicySpec, find_policy, find_shim, LowererConfig};
use crate::kinds::{Binding, BindingKind, ValueKind};
use crate::lowerer::{
    CallMacro, int_slot, LowerState, ref_slot, Reject, resolved_policy, Slot, vable_base,
};
use crate::ops::{CallTarget, IntOpcode, Label, Op, OpKind, OpMetaView, StmtView};
use crate::patterns::{
    assign_opcode, binop_opcode, bool_branches, has_loop_control, is_int_type, pat_literals,
};
use crate::policy::{
    CallFamily, CallResultKind, hint_of_segments, policy_shape, VirtualizableHintKind,
};
use crate::text::lookup;

verus! {

/// What a lowered branch consists of.
pub type Branch<'a> = (Seq<StmtView<'a>>, Seq<OpMetaView<'a>>);

// ── Places ───────────────────────────────────────────────────────────

/// The field name of `state.name`.
pub open spec fn state_field(e: Expr) -> Option<Seq<char>> {
    match e.kind {
        ExprKind::Field(f) => if is_local_name(*f.base, "state"@) {
            member_named(f.member)
        } else {
            None
        },
        _ => None,
    }
}

/// The field name of `v.name`, where `v` is the virtualizable.
pub open spec fn vable_field(config: Option<&LowererConfig>, e: Expr) -> Option<Seq<char>> {
    match config {
        Some(c) => match (c.vable_var, e.kind) {
            (Some(var), ExprKind::Field(f)) => if is_local_name(*f.base, var@) {
                member_named(f.member)
            } else {
                None
            },
            _ => None,
        },
        None => None,
    }
}

/// Number of a scalar state field.
pub open spec fn scalar_index(config: Option<&LowererConfig>, name: Seq<char>) -> Option<u16> {
    match config {
        Some(c) => match lookup(c.state_scalars@, name) {
            Some(i) => Some(i as u16),
            None => None,
        },
        None => None,
    }
}

/// Number of an array of the state, and whether it is a virtualizable one.
pub open spec fn array_index(config: Option<&LowererConfig>, name: Seq<char>) -> Option<
    (bool, u16),
> {
    match config {
        Some(c) => match lookup(c.state_virt_arrays@, name) {
            Some(i) => Some((true, i as u16)),
            None => match lookup(c.state_arrays@, name) {
                Some(i) => Some((false, i as u16)),
                None => None,
            },
        },
        None => None,
    }
}

pub open spec fn vable_field_index(config: Option<&LowererConfig>, name: Seq<char>) -> Option<
    (u16, ValueKind),
> {
    match config {
        Some(c) => match lookup(c.vable_fields@, name) {
            Some(x) => Some((x.0 as u16, x.1)),
            None => None,
        },
        None => None,
    }
}

pub open spec fn vable_array_index(config: Option<&LowererConfig>, name: Seq<char>) -> Option<
    (u16, ValueKind),
> {
    match config {
        Some(c) => match lookup(c.vable_arrays@, name) {
            Some(x) => Some((x.0 as u16, x.1)),
            None => None,
        },
        None => None,
    }
}

// ── Reads without sub-expressions ────────────────────────────────────

/// `state.field` for a scalar field.
#[verifier::opaque]
pub open spec fn state_field_read<'a>(s: LowerState<'a>, e: Expr) -> (
    LowerState<'a>,
    Option<Binding>,
) {
    match state_field(e) {
        Some(name) => match scalar_index(s.ctx.config, name) {
            Some(field) => {
                let reg = s.next_reg;
                (
                    s.reg_taken().emit_op(
                        OpKind::StateField,
                        seq![],
                        seq![int_slot(reg)],
                        Op::LoadStateField(field, reg),
                    ),
                    Some(Binding::fixed(BindingKind::Int, reg)),
                )
            },
            None => (s, None),
        },
        None => (s, None),
    }
}

/// `v.field` for a field of the virtualizable `v`.
#[verifier::opaque]
pub open spec fn vable_field_read<'a>(s: LowerState<'a>, e: Expr) -> (
    LowerState<'a>,
    Option<Binding>,
) {
    match vable_field(s.ctx.config, e) {
        Some(name) => match (vable_field_index(s.ctx.config, name), vable_base(s)) {
            (Some((field, ty)), Some(base)) => {
                let reg = s.next_reg;
                (
                    s.reg_taken().emit_op(
                        OpKind::Vable,
                        seq![ref_slot(base)],
                        seq![Slot { kind: ty.bank(), reg }],
                        Op::VableGetfield(ty, reg, base, field),
                    ),
                    Some(Binding::fixed(ty.bank(), reg)),
                )
            },
            _ => (s, None),
        },
        None => (s, None),
    }
}

/// `v.array.len()` for an array of the virtualizable `v`.
#[verifier::opaque]
pub open spec fn vable_array_len<'a>(s: LowerState<'a>, e: Expr) -> (
    LowerState<'a>,
    Option<Binding>,
) {
    match e.kind {
        ExprKind::MethodCall(c) => if c.method@ == "len"@ && c.args@.len() == 0 {
            match vable_field(s.ctx.config, *c.receiver) {
                Some(name) => match (vable_array_index(s.ctx.config, name), vable_base(s)) {
                    (Some((array, _)), Some(base)) => {
                        let reg = s.next_reg;
                        (
                            s.reg_taken().emit_op(
                                OpKind::Vable,
                                seq![ref_slot(base)],
                                seq![int_slot(reg)],
                                Op::VableArraylen(reg, base, array),
                            ),
                            Some(Binding::fixed(BindingKind::Int, reg)),
                        )
                    },
                    _ => (s, None),
                },
                None => (s, None),
            }
        } else {
            (s, None)
        },
        _ => (s, None),
    }
}

// ── Values ───────────────────────────────────────────────────────────

/// An expression in value position. (The steps stand behind two names so that
/// a mention of `value` does not unfold to all of them.)
pub open spec fn value<'a>(s: LowerState<'a>, e: &'a Expr) -> (LowerState<'a>, Option<Binding>)
    decreases e, 12int,
{
    value_attempts(s, e)
}

pub open spec fn value_attempts<'a>(s: LowerState<'a>, e: &'a Expr) -> (
    LowerState<'a>,
    Option<Binding>,
)
    decreases e, 11int,
{
    value_steps(s, e)
}

/// What is tried for an expression in value position, in order.
pub open spec fn value_steps<'a>(s: LowerState<'a>, e: &'a Expr) -> (
    LowerState<'a>,
    Option<Binding>,
)
    decreases e, 10int,
{
    let (s1, r1) = state_field_read(s, *e);
    if r1 is Some {
        (s1, r1)
    } else {
        let (s2, r2) = state_array_read(s1, e);
        if r2 is Some {
            (s2, r2)
        } else {
            let (s3, r3) = vable_field_read(s2, *e);
            if r3 is Some {
                (s3, r3)
            } else {
                let (s4, r4) = vable_array_read(s3, e);
                if r4 is Some {
                    (s4, r4)
                } else {
                    let (s5, r5) = vable_array_len(s4, *e);
                    if r5 is Some {
                        (s5, r5)
                    } else {
                        let (s6, r6) = hint_identity(s5, e);
                        if r6 is Some {
                            (s6, r6)
                        } else {
                            let (s7, r7) = conditional_value(s6, e);
                            if r7 is Some {
                                (s7, r7)
                            } else {
                                plain_value(s7, e)
                            }
                        }
                    }
                }
            }
        }
    }
}

/// `state.array[index]`. Virtualizable arrays come before flattened ones.
pub open spec fn state_array_read<'a>(s: LowerState<'a>, e: &'a Expr) -> (
    LowerState<'a>,
    Option<Binding>,
)
    decreases e, 9int,
{
    match e.kind {
        ExprKind::Index(x) => match (s.ctx.config, state_field(*x.expr)) {
            (Some(_), Some(name)) => match value(s, &*x.index) {
                (s1, Some(idx)) => {
                    let reg = s1.next_reg;
                    let s2 = s1.reg_taken();
                    match array_index(s2.ctx.config, name) {
                        Some((virt, array)) => (
                            s2.emit_op(
                                OpKind::StateField,
                                seq![int_slot(idx.reg)],
                                seq![int_slot(reg)],
                                if virt {
                                    Op::LoadStateVarray(array, idx.reg, reg)
                                } else {
                                    Op::LoadStateArray(array, idx.reg, reg)
                                },
                            ),
                            Some(Binding::fixed(BindingKind::Int, reg)),
                        ),
                        None => (s2, None),
                    }
                },
                (s1, None) => (s1, None),
            },
            _ => (s, None),
        },
        _ => (s, None),
    }
}

/// `v.array[index]` for an array of the virtualizable `v`.
pub open spec fn vable_array_read<'a>(s: LowerState<'a>, e: &'a Expr) -> (
    LowerState<'a>,
    Option<Binding>,
)
    decreases e, 9int,
{
    match e.kind {
        ExprKind::Index(x) => match vable_field(s.ctx.config, *x.expr) {
            Some(name) => match (vable_array_index(s.ctx.config, name), vable_base(s)) {
                (Some((array, ty)), Some(base)) => match value(s, &*x.index) {
                    (s1, Some(idx)) => {
                        let reg = s1.next_reg;
                        (
                            s1.reg_taken().emit_op(
                                OpKind::Vable,
                                seq![ref_slot(base), int_slot(idx.reg)],
                                seq![Slot { kind: ty.bank(), reg }],
                                Op::VableGetarrayitem(ty, reg, base, array, idx.reg),
                            ),
                            Some(Binding::fixed(ty.bank(), reg)),
                        )
                    },
                    (s1, None) => (s1, None),
                },
                _ => (s, None),
            },
            None => (s, None),
        },
        _ => (s, None),
    }
}

/// A call of an identity hint is its argument.
pub open spec fn hint_identity<'a>(s: LowerState<'a>, e: &'a Expr) -> (
    LowerState<'a>,
    Option<Binding>,
)
    decreases e, 9int,
{
    match e.kind {
        ExprKind::Call(c) => match c.func.kind {
            ExprKind::Path(p) => match hint_of_segments(segment_names(p.path)) {
                Some(VirtualizableHintKind::AccessDirectly)
                | Some(VirtualizableHintKind::FreshVirtualizable) => if c.args@.len() > 0 {
                    value(s, &c.args[0])
                } else {
                    (s, None)
                },
                _ => (s, None),
            },
            _ => (s, None),
        },
        _ => (s, None),
    }
}

/// `conditional_call_elidable!(value, func, args...)`.
pub open spec fn conditional_value<'a>(s: LowerState<'a>, e: &'a Expr) -> (LowerState<'a>, Option<Binding>)
    decreases e, 9int,
{
    proof {
        lemma_macro_list(*e, "conditional_call_elidable"@);
    }
    match macro_list(*e, "conditional_call_elidable"@) {
        Some(list) => conditional_value_list(s, &list),
        None => (s, None),
    }
}

/// `conditional_call_elidable!` with its arguments.
pub open spec fn conditional_value_list<'a>(s: LowerState<'a>, list: &'a Vec<Expr>) -> (
    LowerState<'a>,
    Option<Binding>,
)
    decreases list, list.len() + 2,
{
    let mac = CallMacro::ConditionalCallElidable;
    if list@.len() < 2 {
        (s, None)
    } else if list@.len() > 6 {
        (s.reject(Reject::TooManyArguments(mac)), None)
    } else {
        match value(s, &list[0]) {
            (s1, None) => (s1, None),
            (s1, Some(v)) => if v.kind is Float {
                (s1.reject(Reject::FloatOperand(mac)), None)
            } else if v.reg > 255 {
                (s1.reject(Reject::RegisterIndex(v.reg)), None)
            } else {
                match macro_args(s1, list, 2, mac, seq![]) {
                    (s2, None) => (s2, None),
                    (s2, Some(args)) => conditional_value_tail(s2, &list[1], v, args),
                }
            },
        }
    }
}

/// The arguments of a macro call from the `i`th on; they must be integers or
/// references.
pub open spec fn macro_args<'a>(
    s: LowerState<'a>,
    list: &'a Vec<Expr>,
    i: int,
    mac: CallMacro,
    acc: Seq<Binding>,
) -> (LowerState<'a>, Option<Seq<Binding>>)
    decreases list, list.len() - i,
{
    if 0 <= i < list.len() {
        match value(s, &list[i]) {
            (s1, None) => (s1, None),
            (s1, Some(b)) => if b.reg > 255 {
                (s1.reject(Reject::RegisterIndex(b.reg)), None)
            } else if b.kind is Float {
                (s1.reject(Reject::FloatOperand(mac)), None)
            } else {
                macro_args(s1, list, i + 1, mac, acc.push(b))
            },
        }
    } else {
        (s, Some(acc))
    }
}

/// The arguments of a call from the `i`th on.
pub open spec fn call_args<'a>(
    s: LowerState<'a>,
    list: &'a Vec<Expr>,
    i: int,
    acc: Seq<Binding>,
) -> (LowerState<'a>, Option<Seq<Binding>>)
    decreases list, list.len() - i,
{
    if 0 <= i < list.len() {
        match value(s, &list[i]) {
            (s1, None) => (s1, None),
            (s1, Some(b)) => call_args(s1, list, i + 1, acc.push(b)),
        }
    } else {
        (s, Some(acc))
    }
}

/// The forms that are values by themselves.
pub open spec fn plain_value<'a>(s: LowerState<'a>, e: &'a Expr) -> (
    LowerState<'a>,
    Option<Binding>,
)
    decreases e, 9int,
{
    match e.kind {
        ExprKind::Lit(lit) => match lit {
            Lit::Int(Some(v)) => {
                let reg = s.next_reg;
                (
                    s.reg_taken().emit_op(
                        OpKind::LoadConstI,
                        seq![],
                        seq![int_slot(reg)],
                        Op::LoadConst(reg, v),
                    ),
                    Some(Binding::fixed(BindingKind::Int, reg)),
                )
            },
            _ => (s, None),
        },
        ExprKind::Path(p) => match path_ident(p.path) {
            Some(name) => (s, lookup(s.bindings, name@)),
            None => (s, None),
        },
        ExprKind::Cast(c) => if is_int_type(c.ty) {
            match value(s, &*c.expr) {
                (s1, Some(b)) => if b.kind is Int {
                    (s1, Some(b))
                } else {
                    (s1, None)
                },
                (s1, None) => (s1, None),
            }
        } else {
            (s, None)
        },
        ExprKind::Paren(x) => value(s, &*x),
        ExprKind::If(_) => if_value(s, e),
        ExprKind::Match(_) => match_value(s, e),
        ExprKind::Unary(u) => match u.op {
            UnOp::Neg => match value(s, &*u.expr) {
                (s1, Some(b)) => if b.kind is Int {
                    let reg = s1.next_reg;
                    (
                        s1.reg_taken().emit_op(
                            OpKind::UnaryI,
                            seq![int_slot(b.reg)],
                            seq![int_slot(reg)],
                            Op::IntNeg(reg, b.reg),
                        ),
                        Some(
                            Binding {
                                reg,
                                kind: BindingKind::Int,
                                depends_on_stack: b.depends_on_stack,
                            },
                        ),
                    )
                } else {
                    (s1, None)
                },
                (s1, None) => (s1, None),
            },
            _ => (s, None),
        },
        ExprKind::Binary(_) => binary_value(s, e),
        ExprKind::Call(_) => {
            let (s1, r1) = promote_value(s, e);
            if r1 is Some {
                (s1, r1)
            } else {
                call_value(s1, e)
            }
        },
        ExprKind::MethodCall(_) => method_value(s, e),
        _ => (s, None),
    }
}

/// A binary operation on integers.
pub open spec fn binary_value<'a>(s: LowerState<'a>, e: &'a Expr) -> (
    LowerState<'a>,
    Option<Binding>,
)
    decreases e, 8int,
{
    match e.kind {
        ExprKind::Binary(b) => match value(s, &*b.left) {
            (s1, None) => (s1, None),
            (s1, Some(l)) => match value(s1, &*b.right) {
                (s2, None) => (s2, None),
                (s2, Some(r)) => if l.kind is Int && r.kind is Int {
                    match binop_opcode(b.op) {
                        Some(opcode) => {
                            let reg = s2.next_reg;
                            (
                                s2.reg_taken().emit_op(
                                    OpKind::BinopI,
                                    seq![int_slot(l.reg), int_slot(r.reg)],
                                    seq![int_slot(reg)],
                                    Op::Binop(reg, opcode, l.reg, r.reg),
                                ),
                                Some(
                                    Binding {
                                        reg,
                                        kind: BindingKind::Int,
                                        depends_on_stack: l.depends_on_stack || r.depends_on_stack,
                                    },
                                ),
                            )
                        },
                        None => (s2, None),
                    }
                } else {
                    (s2, None)
                },
            },
        },
        _ => (s, None),
    }
}

/// `promote(x)`: a live marker, a guard on the value, and the value itself.
pub open spec fn promote_value<'a>(s: LowerState<'a>, e: &'a Expr) -> (
    LowerState<'a>,
    Option<Binding>,
)
    decreases e, 8int,
{
    match e.kind {
        ExprKind::Call(c) => if is_promote(*c.func) && c.args@.len() == 1 {
            match value(s, &c.args[0]) {
                (s1, Some(b)) => (guard_value(s1, b), Some(b)),
                (s1, None) => (s1, None),
            }
        } else {
            (s, None)
        },
        _ => (s, None),
    }
}

/// A live marker and a guard that pins a register to its current value.
#[verifier::opaque]
pub open spec fn guard_value<'a>(s: LowerState<'a>, b: Binding) -> LowerState<'a> {
    s.live().emit_op(
        OpKind::GuardValue,
        seq![Slot { kind: b.kind, reg: b.reg }],
        seq![],
        Op::GuardValue(b.kind, b.reg),
    )
}

/// A helper call in value position.
pub open spec fn call_value<'a>(s: LowerState<'a>, e: &'a Expr) -> (
    LowerState<'a>,
    Option<Binding>,
)
    decreases e, 8int,
{
    match e.kind {
        ExprKind::Call(c) => match resolved_policy(s.ctx, *c.func) {
            Some(policy) => if c.args@.len() > MAX_HELPER_CALL_ARITY {
                (s, None)
            } else {
                match call_args(s, &c.args, 0, seq![]) {
                    (s1, None) => (s1, None),
                    (s1, Some(args)) => call_result(
                        s1.reg_taken(),
                        &*c.func,
                        args,
                        policy,
                        s1.next_reg,
                    ),
                }
            },
            None => (s, None),
        },
        _ => (s, None),
    }
}

/// The type whose methods a receiver has.
pub open spec fn receiver_type<'a>(config: Option<&'a LowererConfig>, receiver: Expr) -> Option<
    &'a String,
> {
    match (config, receiver.kind) {
        (Some(c), ExprKind::Path(p)) => match path_ident(p.path) {
            Some(name) => if name@ == "program"@ {
                Some(&c.env_type_name)
            } else if name@ == "state"@ {
                Some(&c.state_type_name)
            } else {
                None
            },
            None => None,
        },
        _ => None,
    }
}

/// The declared policy of a method.
pub open spec fn method_policy<'a>(s: LowerState<'a>, owner: Seq<char>, method: Seq<char>) -> Option<
    CallPolicySpec,
> {
    match s.ctx.call_policies {
        Some(entries) => find_policy(entries@, seq![owner, method]),
        None => None,
    }
}

/// A method call of the program or the state, whose first argument is the
/// receiver. Only elidable methods with an integer result are lowered.
pub open spec fn method_value<'a>(s: LowerState<'a>, e: &'a Expr) -> (
    LowerState<'a>,
    Option<Binding>,
)
    decreases e, 8int,
{
    match e.kind {
        ExprKind::MethodCall(c) => match receiver_type(s.ctx.config, *c.receiver) {
            Some(owner) => match method_policy(s, owner@, c.method@) {
                Some(CallPolicySpec::Explicit(kind)) => if c.args@.len() + 1
                    > MAX_HELPER_CALL_ARITY {
                    (s, None)
                } else {
                    match value(s, &*c.receiver) {
                        (s1, None) => (s1, None),
                        (s1, Some(receiver)) => match call_args(s1, &c.args, 0, seq![receiver]) {
                            (s2, None) => (s2, None),
                            (s2, Some(args)) => {
                                let reg = s2.next_reg;
                                let (family, result, wrapped) = policy_shape(kind);
                                if (family is Pure || family is PureCannotRaise
                                    || family is PureOrMemerror) && result is Int && !wrapped {
                                    (
                                        emit_call(
                                            s2.reg_taken(),
                                            CallTarget::Method(owner, &c.method),
                                            family,
                                            result,
                                            args,
                                            reg,
                                        ),
                                        Some(
                                            Binding {
                                                reg,
                                                kind: BindingKind::Int,
                                                depends_on_stack: any_depends(args),
                                            },
                                        ),
                                    )
                                } else {
                                    (s2.reg_taken(), None)
                                }
                            },
                        },
                    }
                },
                _ => (s, None),
            },
            None => (s, None),
        },
        _ => (s, None),
    }
}

// ── Branches with values ─────────────────────────────────────────────

/// `if` in value position.
pub open spec fn if_value<'a>(s: LowerState<'a>, e: &'a Expr) -> (LowerState<'a>, Option<Binding>)
    decreases e, 8int,
{
    let (s0, r0) = bool_if(s, e);
    if r0 is Some {
        (s0, r0)
    } else {
        match e.kind {
            ExprKind::If(i) => match value(s0, &*i.cond) {
                (s1, None) => (s1, None),
                (s1, Some(cond)) => if cond.kind is Int {
                    match i.else_branch {
                        None => (s1, None),
                        Some(els) => {
                            let else_label = s1.fresh_label();
                            let end_label = s1.label_taken().fresh_label();
                            let s2 = s1.label_taken().label_taken();
                            let dst = s2.next_reg;
                            match branch_block_value(s2.reg_taken(), &i.then_branch.stmts) {
                                (s3, None) => (s3, None),
                                (s3, Some((then_seq, t))) => match branch_value(s3, &*els) {
                                    (s4, None) => (s4, None),
                                    (s4, Some((else_seq, f))) => if t.kind is Int && f.kind is Int {
                                        (
                                            if_value_tail(
                                                s4,
                                                cond.reg,
                                                else_label,
                                                end_label,
                                                dst,
                                                then_seq,
                                                t.reg,
                                                else_seq,
                                                f.reg,
                                            ),
                                            Some(
                                                Binding {
                                                    reg: dst,
                                                    kind: BindingKind::Int,
                                                    depends_on_stack: cond.depends_on_stack
                                                        || t.depends_on_stack || f.depends_on_stack,
                                                },
                                            ),
                                        )
                                    } else {
                                        (s4, None)
                                    },
                                },
                            }
                        },
                    }
                } else {
                    (s1, None)
                },
            },
            _ => (s0, None),
        }
    }
}

/// `dst := src` for integers.
#[verifier::opaque]
pub open spec fn move_int<'a>(s: LowerState<'a>, dst: u16, src: u16) -> LowerState<'a> {
    s.emit_op(OpKind::MoveI, seq![int_slot(src)], seq![int_slot(dst)], Op::MoveI(dst, src))
}

/// The code of an `if` with a value, from its lowered branches.
#[verifier::opaque]
pub open spec fn if_value_tail<'a>(
    s: LowerState<'a>,
    cond: u16,
    else_label: Label,
    end_label: Label,
    dst: u16,
    then_seq: Branch<'a>,
    then_reg: u16,
    else_seq: Branch<'a>,
    else_reg: u16,
) -> LowerState<'a> {
    let head = s.aux(Op::NewLabel(else_label)).aux(Op::NewLabel(end_label)).live().guard(
        cond,
        else_label,
    );
    let then_part = move_int(head.append(then_seq), dst, then_reg).jump(end_label);
    move_int(then_part.label_def(else_label).append(else_seq), dst, else_reg).label_def(end_label)
}

/// `if c { 1 } else { 0 }` is `c`, and `if c { 0 } else { 1 }` is `c == 0`.
pub open spec fn bool_if<'a>(s: LowerState<'a>, e: &'a Expr) -> (LowerState<'a>, Option<Binding>)
    decreases e, 7int,
{
    match e.kind {
        ExprKind::If(i) => match bool_branches(i) {
            None => (s, None),
            Some((then_value, else_value)) => match value(s, &*i.cond) {
                (s1, None) => (s1, None),
                (s1, Some(cond)) => if !(cond.kind is Int) {
                    (s1, None)
                } else if then_value == 1 && else_value == 0 {
                    (s1, Some(cond))
                } else if then_value == 0 && else_value == 1 {
                    let zero = s1.next_reg;
                    let s2 = s1.reg_taken().emit_op(
                        OpKind::LoadConstI,
                        seq![],
                        seq![int_slot(zero)],
                        Op::LoadConst(zero, 0),
                    );
                    let reg = s2.next_reg;
                    (
                        s2.reg_taken().emit_op(
                            OpKind::BinopI,
                            seq![int_slot(cond.reg), int_slot(zero)],
                            seq![int_slot(reg)],
                            Op::Binop(reg, IntOpcode::IntEq, cond.reg, zero),
                        ),
                        Some(
                            Binding {
                                reg,
                                kind: BindingKind::Int,
                                depends_on_stack: cond.depends_on_stack,
                            },
                        ),
                    )
                } else {
                    (s1, None)
                },
            },
        },
        _ => (s, None),
    }
}

/// A branch with a value, lowered by itself.
pub open spec fn branch_value<'a>(s: LowerState<'a>, e: &'a Expr) -> (
    LowerState<'a>,
    Option<(Branch<'a>, Binding)>,
)
    decreases e, 14int,
{
    match scoped_value(s.nested(), e) {
        (n, Some(b)) => (s.joined(n), Some(((n.statements, n.op_metadata), b))),
        (n, None) => (s.abandoned(n), None),
    }
}

/// A block with a value, lowered by itself.
pub open spec fn branch_block_value<'a>(s: LowerState<'a>, stmts: &'a Vec<Stmt>) -> (
    LowerState<'a>,
    Option<(Branch<'a>, Binding)>,
)
    decreases stmts, stmts.len() + 2,
{
    match block_value(s.nested(), stmts) {
        (n, Some(b)) => (s.joined(n), Some(((n.statements, n.op_metadata), b))),
        (n, None) => (s.abandoned(n), None),
    }
}

/// A value, or the value of a block's last expression.
pub open spec fn scoped_value<'a>(s: LowerState<'a>, e: &'a Expr) -> (
    LowerState<'a>,
    Option<Binding>,
)
    decreases e, 13int,
{
    match e.kind {
        ExprKind::Block(b) => block_value(s, &b.stmts),
        _ => value(s, e),
    }
}

/// The statements of a block and the value of its last expression.
pub open spec fn block_value<'a>(s: LowerState<'a>, stmts: &'a Vec<Stmt>) -> (
    LowerState<'a>,
    Option<Binding>,
)
    decreases stmts, stmts.len() + 1,
{
    if stmts@.len() == 0 {
        (s, None)
    } else {
        match lower_stmts(s, stmts, 0, stmts.len() - 1) {
            (s1, false) => (s1, None),
            (s1, true) => match stmts[stmts.len() - 1] {
                Stmt::Expr(e, semi) => if !semi {
                    value(s1, &e)
                } else {
                    (s1, None)
                },
                _ => (s1, None),
            },
        }
    }
}

// ── Match ────────────────────────────────────────────────────────────

/// Whether an arm is taken by everything that reaches it.
pub open spec fn is_default_arm(arm: Arm) -> bool {
    match arm.pat {
        Pat::Wild => true,
        Pat::Ident(p) => p.subpat is None,
        _ => false,
    }
}

/// The literals of an arm that has some.
pub open spec fn arm_literals(arm: Arm) -> Option<Seq<i64>> {
    match pat_literals(arm.pat) {
        Some(v) => if v.len() > 0 {
            Some(v)
        } else {
            None
        },
        None => None,
    }
}

/// Whether every arm is a default arm or consists of literals.
pub open spec fn arms_testable(arms: Seq<Arm>) -> bool {
    forall|i: int|
        0 <= i < arms.len() ==> is_default_arm(#[trigger] arms[i]) || arm_literals(arms[i]) is Some
}

/// The last default arm among the first `n`.
pub open spec fn default_arm(arms: Seq<Arm>, n: int) -> Option<int>
    decreases n,
{
    if 0 < n <= arms.len() {
        if is_default_arm(arms[n - 1]) {
            Some(n - 1)
        } else {
            default_arm(arms, n - 1)
        }
    } else {
        None
    }
}

/// Comparison of `disc` with a constant. Takes two registers; the second one
/// holds the outcome.
#[verifier::opaque]
pub open spec fn test_literal<'a>(s: LowerState<'a>, disc: u16, v: i64) -> LowerState<'a> {
    let c = s.next_reg;
    let eq = s.reg_taken().next_reg;
    load_and_compare(s.reg_taken().reg_taken(), disc, v, c, eq)
}

#[verifier::opaque]
pub open spec fn load_and_compare<'a>(
    s: LowerState<'a>,
    disc: u16,
    v: i64,
    c: u16,
    eq: u16,
) -> LowerState<'a> {
    s.emit_op(OpKind::LoadConstI, seq![], seq![int_slot(c)], Op::LoadConst(c, v)).emit_op(
        OpKind::BinopI,
        seq![int_slot(disc), int_slot(c)],
        seq![int_slot(eq)],
        Op::Binop(eq, IntOpcode::IntEq, disc, c),
    )
}

/// The remaining alternatives of an arm are compared and combined with what
/// came before, which is in `acc`.
#[verifier::opaque]
pub open spec fn or_literals<'a>(
    s: LowerState<'a>,
    disc: u16,
    lits: Seq<i64>,
    i: int,
    acc: u16,
) -> (LowerState<'a>, u16)
    decreases lits.len() - i,
{
    if 0 <= i < lits.len() {
        let c = s.next_reg;
        let eq = s.reg_taken().next_reg;
        let or = s.reg_taken().reg_taken().next_reg;
        let s1 = load_and_compare(s.reg_taken().reg_taken().reg_taken(), disc, lits[i], c, eq);
        let s2 = s1.emit_op(
            OpKind::BinopI,
            seq![int_slot(acc), int_slot(eq)],
            seq![int_slot(or)],
            Op::Binop(or, IntOpcode::IntOr, acc, eq),
        );
        or_literals(s2, disc, lits, i + 1, or)
    } else {
        (s, acc)
    }
}

/// The test of an arm: control goes on where one of the literals matches, and to
/// `next` otherwise.
#[verifier::opaque]
pub open spec fn arm_test<'a>(s: LowerState<'a>, disc: u16, lits: Seq<i64>, next: Label) -> LowerState<
    'a,
> {
    let eq = s.reg_taken().next_reg;
    let s1 = test_literal(s, disc, lits[0]);
    let (s2, outcome) = or_literals(s1, disc, lits, 1, eq);
    s2.live().guard(outcome, next)
}

/// `match` in value position.
pub open spec fn match_value<'a>(s: LowerState<'a>, e: &'a Expr) -> (
    LowerState<'a>,
    Option<Binding>,
)
    decreases e, 8int,
{
    match e.kind {
        ExprKind::Match(m) => match value(s, &*m.expr) {
            (s1, None) => (s1, None),
            (s1, Some(disc)) => if disc.kind is Int {
                let end_label = s1.fresh_label();
                let dst = s1.label_taken().next_reg;
                let s2 = s1.label_taken().reg_taken().aux(Op::NewLabel(end_label));
                if !arms_testable(m.arms@) {
                    (s2, None)
                } else {
                    match_value_chain(s2, &m.arms, disc, end_label, dst)
                }
            } else {
                (s1, None)
            },
        },
        _ => (s, None),
    }
}

/// The arms of a `match` in value position, and the label behind them.
pub open spec fn match_value_chain<'a>(
    s: LowerState<'a>,
    arms: &'a Vec<Arm>,
    disc: Binding,
    end_label: Label,
    dst: u16,
) -> (LowerState<'a>, Option<Binding>)
    decreases arms, arms.len() + 2,
{
    match match_value_arms(s, arms, 0, disc.reg, end_label, dst, disc.depends_on_stack) {
        (s1, None) => (s1, None),
        (s1, Some(depends)) => (
            s1.label_def(end_label),
            Some(Binding { reg: dst, kind: BindingKind::Int, depends_on_stack: depends }),
        ),
    }
}

/// The arms with literals from the `i`th on, then the default arm. What the
/// result depends on is handed along.
pub open spec fn match_value_arms<'a>(
    s: LowerState<'a>,
    arms: &'a Vec<Arm>,
    i: int,
    disc: u16,
    end_label: Label,
    dst: u16,
    depends: bool,
) -> (LowerState<'a>, Option<bool>)
    decreases arms, arms.len() - i,
{
    if 0 <= i < arms.len() {
        if is_default_arm(arms[i]) {
            match_value_arms(s, arms, i + 1, disc, end_label, dst, depends)
        } else {
            let next = s.fresh_label();
            let s1 = arm_test(
                s.label_taken().aux(Op::NewLabel(next)),
                disc,
                arm_literals(arms[i])->0,
                next,
            );
            match branch_value(s1, &*arms[i].body) {
                (s2, None) => (s2, None),
                (s2, Some((seq, b))) => if b.kind is Int {
                    match_value_arms(
                        move_int(s2.append(seq), dst, b.reg).jump(end_label).label_def(next),
                        arms,
                        i + 1,
                        disc,
                        end_label,
                        dst,
                        depends || b.depends_on_stack,
                    )
                } else {
                    (s2, None)
                },
            }
        }
    } else {
        match default_arm(arms@, arms.len() as int) {
            None => (s, Some(depends)),
            Some(d) => if 0 <= d < arms.len() {
                match branch_value(s, &*arms[d].body) {
                    (s1, None) => (s1, None),
                    (s1, Some((seq, b))) => if b.kind is Int {
                        (
                            move_int(s1.append(seq), dst, b.reg),
                            Some(depends || b.depends_on_stack),
                        )
                    } else {
                        (s1, None)
                    },
                }
            } else {
                (s, None)
            },
        }
    }
}

/// `match` in statement position.
pub open spec fn match_stmt<'a>(s: LowerState<'a>, e: &'a Expr) -> (LowerState<'a>, bool)
    decreases e, 16int,
{
    match e.kind {
        ExprKind::Match(m) => match value(s, &*m.expr) {
            (s1, None) => (s1, false),
            (s1, Some(disc)) => if disc.kind is Int {
                let end_label = s1.fresh_label();
                let s2 = s1.label_taken().aux(Op::NewLabel(end_label));
                if !arms_testable(m.arms@) {
                    (s2, false)
                } else {
                    match match_stmt_arms(s2, &m.arms, 0, disc.reg, end_label) {
                        (s3, false) => (s3, false),
                        (s3, true) => (s3.label_def(end_label), true),
                    }
                }
            } else {
                (s1, false)
            },
        },
        _ => (s, false),
    }
}

/// The arms with literals from the `i`th on, then the default arm.
pub open spec fn match_stmt_arms<'a>(
    s: LowerState<'a>,
    arms: &'a Vec<Arm>,
    i: int,
    disc: u16,
    end_label: Label,
) -> (LowerState<'a>, bool)
    decreases arms, arms.len() - i,
{
    if 0 <= i < arms.len() {
        if is_default_arm(arms[i]) {
            match_stmt_arms(s, arms, i + 1, disc, end_label)
        } else {
            let next = s.fresh_label();
            let s1 = arm_test(
                s.label_taken().aux(Op::NewLabel(next)),
                disc,
                arm_literals(arms[i])->0,
                next,
            );
            match branch_expr(s1, &*arms[i].body) {
                (s2, None) => (s2, false),
                (s2, Some(seq)) => match_stmt_arms(
                    s2.append(seq).jump(end_label).label_def(next),
                    arms,
                    i + 1,
                    disc,
                    end_label,
                ),
            }
        }
    } else {
        match default_arm(arms@, arms.len() as int) {
            None => (s, true),
            Some(d) => if 0 <= d < arms.len() {
                match branch_expr(s, &*arms[d].body) {
                    (s1, None) => (s1, false),
                    (s1, Some(seq)) => (s1.append(seq), true),
                }
            } else {
                (s, false)
            },
        }
    }
}

// ── Statements ───────────────────────────────────────────────────────

/// One statement. With a configuration, a statement that does not change the
/// interpreter's state may be left out.
pub open spec fn lower_stmt<'a>(s: LowerState<'a>, stmt: &'a Stmt) -> (LowerState<'a>, bool)
    decreases stmt, 1int,
{
    match *stmt {
        Stmt::Local(l) => match lower_local(s, &l) {
            (s1, true) => (s1, true),
            (s1, false) => if s1.ctx.config is Some && !stmt_modifies(s1.ctx.config, *stmt) {
                (s1, true)
            } else {
                (s1, false)
            },
        },
        Stmt::Expr(e, _) => expr_or_skip(s, &e),
        Stmt::Macro(path) => if s.ctx.in_dispatch_arm_body && path_ends_with(
            path,
            "can_enter_jit"@,
        ) {
            (s.emit_op(OpKind::LoopHeader, seq![], seq![], Op::LoopHeader), true)
        } else {
            (s, false)
        },
        Stmt::Item(_) => (s, false),
    }
}

/// The statements from the `i`th up to the `end`th.
pub open spec fn lower_stmts<'a>(s: LowerState<'a>, stmts: &'a Vec<Stmt>, i: int, end: int) -> (
    LowerState<'a>,
    bool,
)
    decreases stmts, stmts.len() - i,
{
    if 0 <= i < end && end <= stmts.len() {
        match lower_stmt(s, &stmts[i]) {
            (s1, false) => (s1, false),
            (s1, true) => lower_stmts(s1, stmts, i + 1, end),
        }
    } else {
        (s, true)
    }
}

/// `let name = init`. What cannot be lowered may still be a constant of the
/// trace: then it is evaluated verbatim.
pub open spec fn lower_local<'a>(s: LowerState<'a>, l: &'a Local) -> (LowerState<'a>, bool)
    decreases l, 0int,
{
    match (l.pat, l.init) {
        (Pat::Ident(p), Some(init)) => match value(s, &*init.expr) {
            (s1, Some(b)) => {
                let s2 = if b.depends_on_stack {
                    s1.aux(Op::LocalZero(&p.ident))
                } else {
                    s1
                };
                (s2.bind(p.ident@, b), true)
            },
            (s1, None) => if s1.ctx.config is Some && !touches_storage(
                s1.ctx.config,
                *init.expr,
            ) && !uses(s1.bindings.dom(), Set::empty(), *init.expr) {
                let reg = s1.next_reg;
                (
                    s1.reg_taken().emit_op(
                        OpKind::LoadConstI,
                        seq![],
                        seq![int_slot(reg)],
                        Op::RuntimeConst(reg, &p.ident, &*init.expr),
                    ).bind(p.ident@, Binding::fixed(BindingKind::Int, reg)),
                    true,
                )
            } else {
                (s1, false)
            },
        },
        _ => (s, false),
    }
}

/// An expression in statement position, or nothing where it changes no state.
pub open spec fn expr_or_skip<'a>(s: LowerState<'a>, e: &'a Expr) -> (LowerState<'a>, bool)
    decreases e, 20int,
{
    match expr_stmt(s, e) {
        (s1, true) => (s1, true),
        (s1, false) => if s1.ctx.config is Some && !modifies(s1.ctx.config, *e) {
            (s1, true)
        } else {
            (s1, false)
        },
    }
}

/// An expression in statement position.
pub open spec fn expr_stmt<'a>(s: LowerState<'a>, e: &'a Expr) -> (LowerState<'a>, bool)
    decreases e, 19int,
{
    let (s1, r1) = promote_stmt(s, e);
    if r1 {
        (s1, r1)
    } else {
        let (s2, r2) = state_field_update(s1, e);
        if r2 {
            (s2, r2)
        } else {
            let (s3, r3) = state_field_write(s2, e);
            if r3 {
                (s3, r3)
            } else {
                let (s4, r4) = state_array_write(s3, e);
                if r4 {
                    (s4, r4)
                } else {
                    expr_stmt_vable(s4, e)
                }
            }
        }
    }
}

/// An expression in statement position that is no promotion and no change of
/// state fields.
pub open spec fn expr_stmt_vable<'a>(s: LowerState<'a>, e: &'a Expr) -> (LowerState<'a>, bool)
    decreases e, 18int,
{
    let (s5, r5) = vable_field_write(s, e);
    if r5 {
        (s5, r5)
    } else {
        let (s6, r6) = vable_array_write(s5, e);
        if r6 {
            (s6, r6)
        } else {
            let (s7, r7) = vable_force(s6, e);
            if r7 {
                (s7, r7)
            } else if hint_suppressed(s7.ctx.config, *e) {
                (s7, true)
            } else {
                let (s8, r8) = conditional_call(s7, e);
                if r8 {
                    (s8, r8)
                } else {
                    let (s9, r9) = known_result(s8, e);
                    if r9 {
                        (s9, r9)
                    } else {
                        expr_stmt_control(s9, e)
                    }
                }
            }
        }
    }
}

/// Branches, loops and calls in statement position.
pub open spec fn expr_stmt_control<'a>(s: LowerState<'a>, e: &'a Expr) -> (
    LowerState<'a>,
    bool,
)
    decreases e, 17int,
{
    match e.kind {
        ExprKind::If(_) => if_stmt(s, e),
        ExprKind::Match(_) => match_stmt(s, e),
        ExprKind::While(_) => while_loop(s, e),
        ExprKind::Loop(_) => loop_expr(s, e),
        ExprKind::ForLoop(_) => (s, false),
        _ => {
            let (s1, r1) = config_call_stmt(s, e);
            if r1 {
                (s1, r1)
            } else if s1.ctx.config is Some {
                io_call_stmt(s1, e)
            } else {
                (s1, false)
            }
        },
    }
}

/// The name that `name = promote(..)` assigns to.
#[verifier::opaque]
pub open spec fn promoted_name(e: Expr) -> Option<Seq<char>> {
    match e.kind {
        ExprKind::Assign(a) => match (a.left.kind, a.right.kind) {
            (ExprKind::Path(p), ExprKind::Call(c)) => match path_ident(p.path) {
                Some(name) => if is_promote(*c.func) {
                    Some(name@)
                } else {
                    None
                },
                None => None,
            },
            _ => None,
        },
        _ => None,
    }
}

/// Whether the expression is a promotion.
#[verifier::opaque]
pub open spec fn is_promotion(e: Expr) -> bool {
    match e.kind {
        ExprKind::Call(c) => is_promote(*c.func),
        _ => false,
    }
}

/// `name = promote(x)` makes `name` stand for the promoted value, and
/// `promote(x)` alone guards it.
pub open spec fn promote_stmt<'a>(s: LowerState<'a>, e: &'a Expr) -> (LowerState<'a>, bool)
    decreases e, 16int,
{
    match (promoted_name(*e), e.kind) {
        (Some(name), ExprKind::Assign(a)) => match value(s, &*a.right) {
            (s1, Some(b)) => (s1.bind(name, b), true),
            (s1, None) => (s1, false),
        },
        _ => if is_promotion(*e) {
            match value(s, e) {
                (s1, Some(_)) => (s1, true),
                (s1, None) => (s1, false),
            }
        } else {
            (s, false)
        },
    }
}

/// Field and operation of `state.field op= ..`.
#[verifier::opaque]
pub open spec fn update_target(config: Option<&LowererConfig>, e: Expr) -> Option<(u16, IntOpcode)> {
    match e.kind {
        ExprKind::Binary(b) => match state_field(*b.left) {
            Some(name) => match (scalar_index(config, name), assign_opcode(b.op)) {
                (Some(field), Some(opcode)) => Some((field, opcode)),
                _ => None,
            },
            None => None,
        },
        _ => None,
    }
}

/// `state.field := left op right`, where `left` holds the field's value.
#[verifier::opaque]
pub open spec fn store_updated<'a>(
    s: LowerState<'a>,
    field: u16,
    opcode: IntOpcode,
    left: u16,
    right: u16,
) -> LowerState<'a> {
    let dst = s.next_reg;
    s.reg_taken().emit_op(
        OpKind::BinopI,
        seq![int_slot(left), int_slot(right)],
        seq![int_slot(dst)],
        Op::Binop(dst, opcode, left, right),
    ).emit_op(
        OpKind::StateField,
        seq![int_slot(dst)],
        seq![],
        Op::StoreStateField(field, dst),
    )
}

/// `state.field op= value`.
pub open spec fn state_field_update<'a>(s: LowerState<'a>, e: &'a Expr) -> (LowerState<'a>, bool)
    decreases e, 16int,
{
    match (update_target(s.ctx.config, *e), e.kind) {
        (Some((field, opcode)), ExprKind::Binary(b)) => match state_field_read(s, *b.left) {
            (s1, None) => (s1, false),
            (s1, Some(l)) => match value(s1, &*b.right) {
                (s2, None) => (s2, false),
                (s2, Some(r)) => if r.kind is Int {
                    (store_updated(s2, field, opcode, l.reg, r.reg), true)
                } else {
                    (s2, false)
                },
            },
        },
        _ => (s, false),
    }
}

/// `state.field = value`.
pub open spec fn state_field_write<'a>(s: LowerState<'a>, e: &'a Expr) -> (
    LowerState<'a>,
    bool,
)
    decreases e, 16int,
{
    match e.kind {
        ExprKind::Assign(a) => match state_field(*a.left) {
            Some(name) => match scalar_index(s.ctx.config, name) {
                Some(field) => match value(s, &*a.right) {
                    (s1, Some(b)) => (
                        s1.emit_op(
                            OpKind::StateField,
                            seq![int_slot(b.reg)],
                            seq![],
                            Op::StoreStateField(field, b.reg),
                        ),
                        true,
                    ),
                    (s1, None) => (s1, false),
                },
                None => (s, false),
            },
            None => (s, false),
        },
        _ => (s, false),
    }
}

/// Array, index and value of `array[index] = value`.
#[verifier::opaque]
pub open spec fn index_assign(e: Expr) -> Option<(Expr, Expr, Expr)> {
    match e.kind {
        ExprKind::Assign(a) => match a.left.kind {
            ExprKind::Index(x) => Some((*x.expr, *x.index, *a.right)),
            _ => None,
        },
        _ => None,
    }
}

pub proof fn lemma_index_assign(e: Expr)
    ensures
        match index_assign(e) {
            Some((_, index, right)) => decreases_to!(e => index) && decreases_to!(e => right),
            None => true,
        },
{
    reveal(index_assign);
}

/// The field name of `state.field` with a configuration.
#[verifier::opaque]
pub open spec fn state_array_name(config: Option<&LowererConfig>, array: Expr) -> Option<Seq<char>> {
    match config {
        Some(_) => state_field(array),
        None => None,
    }
}

/// `state.name[idx] := v`. Virtualizable arrays come before flattened ones.
#[verifier::opaque]
pub open spec fn store_element<'a>(s: LowerState<'a>, name: Seq<char>, idx: u16, v: u16) -> (
    LowerState<'a>,
    bool,
) {
    if idx > 255 {
        (s.reject(Reject::RegisterIndex(idx)), false)
    } else if v > 255 {
        (s.reject(Reject::RegisterIndex(v)), false)
    } else {
        match array_index(s.ctx.config, name) {
            Some((virt, array)) => (
                s.emit_op(
                    OpKind::StateField,
                    seq![int_slot(idx), int_slot(v)],
                    seq![],
                    if virt {
                        Op::StoreStateVarray(array, idx, v)
                    } else {
                        Op::StoreStateArray(array, idx, v)
                    },
                ),
                true,
            ),
            None => (s, false),
        }
    }
}

/// `state.name[idx] = right`.
pub open spec fn element_value<'a>(
    s: LowerState<'a>,
    right: &'a Expr,
    name: Seq<char>,
    idx: u16,
) -> (LowerState<'a>, bool)
    decreases right, 13int,
{
    match value(s, right) {
        (s1, None) => (s1, false),
        (s1, Some(v)) => store_element(s1, name, idx, v.reg),
    }
}

/// `state.array[index] = value`.
pub open spec fn state_array_write<'a>(s: LowerState<'a>, e: &'a Expr) -> (LowerState<'a>, bool)
    decreases e, 16int,
{
    proof {
        lemma_index_assign(*e);
    }
    match index_assign(*e) {
        Some((array, index, right)) => match state_array_name(s.ctx.config, array) {
            Some(name) => match value(s, &index) {
                (s1, None) => (s1, false),
                (s1, Some(idx)) => element_value(s1, &right, name, idx.reg),
            },
            None => (s, false),
        },
        None => (s, false),
    }
}

/// `v.field = value` for a field of the virtualizable `v`.
pub open spec fn vable_field_write<'a>(s: LowerState<'a>, e: &'a Expr) -> (
    LowerState<'a>,
    bool,
)
    decreases e, 16int,
{
    match e.kind {
        ExprKind::Assign(a) => match vable_field(s.ctx.config, *a.left) {
            Some(name) => match (vable_field_index(s.ctx.config, name), vable_base(s)) {
                (Some((field, ty)), Some(base)) => match value(s, &*a.right) {
                    (s1, Some(b)) => (
                        s1.emit_op(
                            OpKind::Vable,
                            seq![ref_slot(base), Slot { kind: ty.bank(), reg: b.reg }],
                            seq![],
                            Op::VableSetfield(ty, base, field, b.reg),
                        ),
                        true,
                    ),
                    (s1, None) => (s1, false),
                },
                _ => (s, false),
            },
            None => (s, false),
        },
        _ => (s, false),
    }
}

/// Number, item type and base register of an array `v.array`, where `v` is the
/// virtualizable.
#[verifier::opaque]
pub open spec fn vable_array_target<'a>(s: LowerState<'a>, array: Expr) -> Option<
    (u16, ValueKind, u16),
> {
    match vable_field(s.ctx.config, array) {
        Some(name) => match (vable_array_index(s.ctx.config, name), vable_base(s)) {
            (Some((number, ty)), Some(base)) => Some((number, ty, base)),
            _ => None,
        },
        None => None,
    }
}

/// `v.array[idx] := val`, where `base` holds the virtualizable `v`.
#[verifier::opaque]
pub open spec fn vable_store<'a>(
    s: LowerState<'a>,
    array: u16,
    ty: ValueKind,
    base: u16,
    idx: u16,
    val: u16,
) -> LowerState<'a> {
    s.emit_op(
        OpKind::Vable,
        seq![ref_slot(base), int_slot(idx), Slot { kind: ty.bank(), reg: val }],
        seq![],
        Op::VableSetarrayitem(ty, base, array, idx, val),
    )
}

/// `v.array[idx] = right`, where `base` holds the virtualizable `v`.
pub open spec fn vable_value<'a>(
    s: LowerState<'a>,
    right: &'a Expr,
    array: u16,
    ty: ValueKind,
    base: u16,
    idx: u16,
) -> (LowerState<'a>, bool)
    decreases right, 13int,
{
    match value(s, right) {
        (s1, None) => (s1, false),
        (s1, Some(v)) => (vable_store(s1, array, ty, base, idx, v.reg), true),
    }
}

/// `v.array[index] = value` for an array of the virtualizable `v`.
pub open spec fn vable_array_write<'a>(s: LowerState<'a>, e: &'a Expr) -> (LowerState<'a>, bool)
    decreases e, 16int,
{
    proof {
        lemma_index_assign(*e);
    }
    match index_assign(*e) {
        Some((array, index, right)) => match vable_array_target(s, array) {
            Some((number, ty, base)) => match value(s, &index) {
                (s1, None) => (s1, false),
                (s1, Some(idx)) => vable_value(s1, &right, number, ty, base, idx.reg),
            },
            None => (s, false),
        },
        None => (s, false),
    }
}

/// Whether the configuration declares a virtualizable.
pub open spec fn has_vable(config: Option<&LowererConfig>) -> bool {
    match config {
        Some(c) => c.vable_var is Some,
        None => false,
    }
}

/// Whether the expression is `hint_force_virtualizable!(..)` with a declared
/// virtualizable.
#[verifier::opaque]
pub open spec fn is_force_hint(config: Option<&LowererConfig>, e: Expr) -> bool {
    match e.kind {
        ExprKind::Macro(m) => has_vable(config) && hint_of_segments(segment_names(m.path)) == Some(
            VirtualizableHintKind::ForceVirtualizable,
        ),
        _ => false,
    }
}

/// `hint_force_virtualizable!(v)`.
pub open spec fn vable_force<'a>(s: LowerState<'a>, e: &'a Expr) -> (LowerState<'a>, bool)
    decreases e, 16int,
{
    match e.kind {
        ExprKind::Macro(m) => match m.single {
            Some(arg) => if is_force_hint(s.ctx.config, *e) {
                match value(s, &*arg) {
                    (s1, Some(b)) => (
                        s1.emit_op(
                            OpKind::Vable,
                            seq![ref_slot(b.reg)],
                            seq![],
                            Op::VableForce(b.reg),
                        ),
                        true,
                    ),
                    (s1, None) => (s1, false),
                }
            } else {
                (s, false)
            },
            None => (s, false),
        },
        _ => (s, false),
    }
}

/// Whether the expression is a hint that leaves no code.
pub open spec fn hint_suppressed(config: Option<&LowererConfig>, e: Expr) -> bool {
    match e.kind {
        ExprKind::Macro(m) => config is Some && match hint_of_segments(segment_names(m.path)) {
            Some(VirtualizableHintKind::AccessDirectly)
            | Some(VirtualizableHintKind::FreshVirtualizable) => true,
            _ => false,
        },
        _ => false,
    }
}

/// The arguments of the macro call `name!(..)`, if there are at least two.
#[verifier::opaque]
pub open spec fn macro_list(e: Expr, name: Seq<char>) -> Option<Vec<Expr>> {
    match e.kind {
        ExprKind::Macro(m) => if path_ends_with(m.path, name) {
            match m.list {
                Some(list) => if list@.len() >= 2 {
                    Some(list)
                } else {
                    None
                },
                None => None,
            }
        } else {
            None
        },
        _ => None,
    }
}

pub proof fn lemma_macro_list(e: Expr, name: Seq<char>)
    ensures
        match macro_list(e, name) {
            Some(list) => decreases_to!(e => list),
            None => true,
        },
{
    reveal(macro_list);
}

/// `conditional_call!(condition, func, args...)`.
pub open spec fn conditional_call<'a>(s: LowerState<'a>, e: &'a Expr) -> (LowerState<'a>, bool)
    decreases e, 16int,
{
    proof {
        lemma_macro_list(*e, "conditional_call"@);
    }
    match macro_list(*e, "conditional_call"@) {
        Some(list) => conditional_call_list(s, &list),
        None => (s, false),
    }
}

/// `conditional_call!` with its arguments.
pub open spec fn conditional_call_list<'a>(s: LowerState<'a>, list: &'a Vec<Expr>) -> (
    LowerState<'a>,
    bool,
)
    decreases list, list.len() + 2,
{
    let mac = CallMacro::ConditionalCall;
    if list@.len() < 2 {
        (s, false)
    } else if list@.len() > 6 {
        (s.reject(Reject::TooManyArguments(mac)), false)
    } else {
        match value(s, &list[0]) {
            (s1, None) => (s1, false),
            (s1, Some(cond)) => if cond.reg > 255 {
                (s1.reject(Reject::RegisterIndex(cond.reg)), false)
            } else {
                match macro_args(s1, list, 2, mac, seq![]) {
                    (s2, None) => (s2, false),
                    (s2, Some(args)) => conditional_call_tail(s2, &list[1], cond.reg, args),
                }
            },
        }
    }
}

/// `record_known_result!(result, func, args...)`.
pub open spec fn known_result<'a>(s: LowerState<'a>, e: &'a Expr) -> (LowerState<'a>, bool)
    decreases e, 16int,
{
    proof {
        lemma_macro_list(*e, "record_known_result"@);
    }
    match macro_list(*e, "record_known_result"@) {
        Some(list) => known_result_list(s, &list),
        None => (s, false),
    }
}

/// `record_known_result!` with its arguments.
pub open spec fn known_result_list<'a>(s: LowerState<'a>, list: &'a Vec<Expr>) -> (
    LowerState<'a>,
    bool,
)
    decreases list, list.len() + 2,
{
    let mac = CallMacro::RecordKnownResult;
    if list@.len() < 2 {
        (s, false)
    } else {
        match value(s, &list[0]) {
            (s1, None) => (s1, false),
            (s1, Some(result)) => if result.kind is Float {
                (s1.reject(Reject::FloatOperand(mac)), false)
            } else {
                match macro_args(s1, list, 2, mac, seq![]) {
                    (s2, None) => (s2, false),
                    (s2, Some(args)) => known_result_tail(s2, &list[1], result, args),
                }
            },
        }
    }
}

/// A helper call in statement position.
pub open spec fn config_call_stmt<'a>(s: LowerState<'a>, e: &'a Expr) -> (
    LowerState<'a>,
    bool,
)
    decreases e, 16int,
{
    match e.kind {
        ExprKind::Call(c) => match resolved_policy(s.ctx, *c.func) {
            Some(policy) => if c.args@.len() > MAX_HELPER_CALL_ARITY {
                (s, false)
            } else {
                match call_args(s, &c.args, 0, seq![]) {
                    (s1, None) => (s1, false),
                    (s1, Some(args)) => call_stmt(s1, &*c.func, args, policy),
                }
            },
            None => (s, false),
        },
        _ => (s, false),
    }
}

/// The stand-in of an I/O function.
#[verifier::opaque]
pub open spec fn io_shim<'a>(config: Option<&'a LowererConfig>, func: Expr) -> Option<String> {
    match (config, expr_segments(func)) {
        (Some(c), Some(segments)) => find_shim(c.io_shims@, segments),
        _ => None,
    }
}

/// The call of a stand-in. It takes its argument as an integer.
#[verifier::opaque]
pub open spec fn shim_call<'a>(s: LowerState<'a>, shim: &'a String, b: Binding) -> LowerState<'a> {
    emit_call(
        s,
        CallTarget::Shim(shim),
        CallFamily::Residual,
        CallResultKind::Void,
        seq![Binding::fixed(BindingKind::Int, b.reg)],
        0,
    )
}

/// The value of an expression or of what it borrows.
pub open spec fn referent_value<'a>(s: LowerState<'a>, e: &'a Expr) -> (
    LowerState<'a>,
    Option<Binding>,
)
    decreases e, 13int,
{
    match e.kind {
        ExprKind::Reference(x) => value(s, &*x),
        _ => value(s, e),
    }
}

/// An I/O call becomes a call of its stand-in with the first argument.
pub open spec fn io_call_stmt<'a>(s: LowerState<'a>, e: &'a Expr) -> (LowerState<'a>, bool)
    decreases e, 16int,
{
    match e.kind {
        ExprKind::Call(c) => match io_shim(s.ctx.config, *c.func) {
            Some(shim) => if c.args@.len() > 0 {
                match referent_value(s, &c.args[0]) {
                    (s1, Some(b)) => (shim_call(s1, &shim, b), true),
                    (s1, None) => (s1, false),
                }
            } else {
                (s, false)
            },
            None => (s, false),
        },
        _ => (s, false),
    }
}

// ── Branches in statement position ───────────────────────────────────

/// `if` in statement position.
pub open spec fn if_stmt<'a>(s: LowerState<'a>, e: &'a Expr) -> (LowerState<'a>, bool)
    decreases e, 16int,
{
    match e.kind {
        ExprKind::If(i) => match value(s, &*i.cond) {
            (s1, None) => (s1, false),
            (s1, Some(cond)) => if_branches(s1, e, cond.reg),
        },
        _ => (s, false),
    }
}

/// The branches of an `if` in statement position.
pub open spec fn if_branches<'a>(s: LowerState<'a>, e: &'a Expr, cond: u16) -> (
    LowerState<'a>,
    bool,
)
    decreases e, 15int,
{
    match e.kind {
        ExprKind::If(i) => {
            let else_label = s.fresh_label();
            let end_label = s.label_taken().fresh_label();
            match branch_block(s.label_taken().label_taken(), &i.then_branch.stmts) {
                (s2, None) => (s2, false),
                (s2, Some(then_seq)) => match else_branch(s2, e) {
                    (s3, None) => (s3, false),
                    (s3, Some(else_seq)) => (
                        if_stmt_tail(s3, cond, else_label, end_label, then_seq, else_seq),
                        true,
                    ),
                },
            }
        },
        _ => (s, false),
    }
}

/// The `else` branch of an `if` in statement position; none is an empty one.
pub open spec fn else_branch<'a>(s: LowerState<'a>, e: &'a Expr) -> (
    LowerState<'a>,
    Option<Branch<'a>>,
)
    decreases e, 14int,
{
    match e.kind {
        ExprKind::If(i) => match i.else_branch {
            Some(x) => branch_expr(s, &*x),
            None => (s, Some((seq![], seq![]))),
        },
        _ => (s, None),
    }
}

/// The code of an `if`, from its lowered branches.
#[verifier::opaque]
pub open spec fn if_stmt_tail<'a>(
    s: LowerState<'a>,
    cond: u16,
    else_label: Label,
    end_label: Label,
    then_seq: Branch<'a>,
    else_seq: Branch<'a>,
) -> LowerState<'a> {
    s.aux(Op::NewLabel(else_label)).aux(Op::NewLabel(end_label)).live().guard(
        cond,
        else_label,
    ).append(then_seq).jump(end_label).label_def(else_label).append(else_seq).label_def(end_label)
}

/// A branch in statement position, lowered by itself.
pub open spec fn branch_expr<'a>(s: LowerState<'a>, e: &'a Expr) -> (
    LowerState<'a>,
    Option<Branch<'a>>,
)
    decreases e, 21int,
{
    match e.kind {
        ExprKind::Block(b) => branch_block(s, &b.stmts),
        _ => match expr_or_skip(s.nested(), e) {
            (n, true) => (s.joined(n), Some((n.statements, n.op_metadata))),
            (n, false) => (s.abandoned(n), None),
        },
    }
}

/// A block in statement position, lowered by itself.
pub open spec fn branch_block<'a>(s: LowerState<'a>, stmts: &'a Vec<Stmt>) -> (
    LowerState<'a>,
    Option<Branch<'a>>,
)
    decreases stmts, stmts.len() + 1,
{
    match lower_stmts(s.nested(), stmts, 0, stmts.len() as int) {
        (n, true) => (s.joined(n), Some((n.statements, n.op_metadata))),
        (n, false) => (s.abandoned(n), None),
    }
}

// ── Loops ────────────────────────────────────────────────────────────

/// `while cond { body }`.
pub open spec fn while_loop<'a>(s: LowerState<'a>, e: &'a Expr) -> (LowerState<'a>, bool)
    decreases e, 16int,
{
    match e.kind {
        ExprKind::While(w) => {
            let start = s.fresh_label();
            let end = s.label_taken().fresh_label();
            let s1 = s.label_taken().label_taken().aux(Op::NewLabel(start)).aux(
                Op::NewLabel(end),
            ).label_def(start);
            match value(s1, &*w.cond) {
                (s2, None) => (s2, false),
                (s2, Some(cond)) => match loop_body(
                    s2.live().guard(cond.reg, end),
                    &w.body.stmts,
                    end,
                    start,
                ) {
                    (s3, None) => (s3, false),
                    (s3, Some(body)) => (
                        s3.append(body).jump(start).label_def(end),
                        true,
                    ),
                },
            }
        },
        _ => (s, false),
    }
}

/// `loop { body }`.
pub open spec fn loop_expr<'a>(s: LowerState<'a>, e: &'a Expr) -> (LowerState<'a>, bool)
    decreases e, 16int,
{
    match e.kind {
        ExprKind::Loop(b) => {
            let start = s.fresh_label();
            let end = s.label_taken().fresh_label();
            let s1 = s.label_taken().label_taken().aux(Op::NewLabel(start)).aux(
                Op::NewLabel(end),
            ).label_def(start);
            match loop_body(s1, &b.stmts, end, start) {
                (s2, None) => (s2, false),
                (s2, Some(body)) => (s2.append(body).jump(start).label_def(end), true),
            }
        },
        _ => (s, false),
    }
}

/// The body of a loop, lowered by itself: `break` and `continue` are jumps.
pub open spec fn loop_body<'a>(
    s: LowerState<'a>,
    stmts: &'a Vec<Stmt>,
    break_label: Label,
    continue_label: Label,
) -> (LowerState<'a>, Option<Branch<'a>>)
    decreases stmts, stmts.len() + 1,
{
    match loop_stmts(s.nested(), stmts, 0, break_label, continue_label) {
        (n, true) => (s.joined(n), Some((n.statements, n.op_metadata))),
        (n, false) => (s.abandoned(n), None),
    }
}

/// The statements of a loop body from the `i`th on.
pub open spec fn loop_stmts<'a>(
    s: LowerState<'a>,
    stmts: &'a Vec<Stmt>,
    i: int,
    break_label: Label,
    continue_label: Label,
) -> (LowerState<'a>, bool)
    decreases stmts, stmts.len() - i,
{
    if 0 <= i < stmts.len() {
        match loop_stmt(s, &stmts[i], break_label, continue_label) {
            (s1, true) => loop_stmts(s1, stmts, i + 1, break_label, continue_label),
            (s1, false) => match lower_stmt(s1, &stmts[i]) {
                (s2, true) => loop_stmts(s2, stmts, i + 1, break_label, continue_label),
                (s2, false) => (s2, false),
            },
        }
    } else {
        (s, true)
    }
}

/// A statement that is loop control, or an `if` around some.
pub open spec fn loop_stmt<'a>(
    s: LowerState<'a>,
    stmt: &'a Stmt,
    break_label: Label,
    continue_label: Label,
) -> (LowerState<'a>, bool)
    decreases stmt, 1int,
{
    match *stmt {
        Stmt::Expr(e, _) => match e.kind {
            ExprKind::Break(_) => (s.jump(break_label), true),
            ExprKind::Continue => (s.jump(continue_label), true),
            ExprKind::If(_) => loop_if(s, &e, break_label, continue_label),
            _ => (s, false),
        },
        _ => (s, false),
    }
}

/// An `if` in a loop body with loop control in its branches.
pub open spec fn loop_if<'a>(
    s: LowerState<'a>,
    e: &'a Expr,
    break_label: Label,
    continue_label: Label,
) -> (LowerState<'a>, bool)
    decreases e, 16int,
{
    match e.kind {
        ExprKind::If(i) => if !has_loop_control(*e) {
            (s, false)
        } else {
            match value(s, &*i.cond) {
                (s1, None) => (s1, false),
                (s1, Some(cond)) => {
                    let else_label = s1.fresh_label();
                    let end_label = s1.label_taken().fresh_label();
                    let s2 = s1.label_taken().label_taken().aux(Op::NewLabel(else_label)).aux(
                        Op::NewLabel(end_label),
                    ).live().guard(cond.reg, else_label);
                    match loop_body(s2, &i.then_branch.stmts, break_label, continue_label) {
                        (s3, None) => (s3, false),
                        (s3, Some(then_seq)) => {
                            let s4 = s3.append(then_seq).jump(end_label).label_def(else_label);
                            match i.else_branch {
                                None => (s4.label_def(end_label), true),
                                Some(x) => match x.kind {
                                    ExprKind::Block(b) => match loop_body(
                                        s4,
                                        &b.stmts,
                                        break_label,
                                        continue_label,
                                    ) {
                                        (s5, None) => (s5, false),
                                        (s5, Some(else_seq)) => (
                                            s5.append(else_seq).label_def(end_label),
                                            true,
                                        ),
                                    },
                                    _ => (s4, false),
                                },
                            }
                        },
                    }
                },
            }
        },
        _ => (s, false),
    }
}

} // verus!
