//! What a policy decides of a call, and what is known of a value.

use vstd::prelude::*;

use crate::ast::{Block, Expr, ExprKind};
use crate::calls::{
    any_depends, call_result, call_stmt, emit_call, has_kind, inline_shape, policy_target,
};
use crate::code_runs::lemma_emitted;
use crate::config::CallPolicySpec;
use crate::dispatch::{final_return, tail_expr};
use crate::kinds::{Binding, BindingKind};
use crate::lower_spec::value;
use crate::lowerer::{LowerState, registers, Slot, slots_of};
use crate::ops::{CallTarget, InlineFamily, Instr, Op, OpKind, StmtView};
use crate::policy::{CallPolicyKind, CallResultKind, policy_shape, result_bank};
use crate::value_laws::lemma_plain;

verus! {

/// Family, result and way to the callee determine a policy.
pub proof fn law_a_policy_is_determined_by_its_shape(a: CallPolicyKind, b: CallPolicyKind)
    requires
        policy_shape(a) == policy_shape(b),
    ensures
        a == b,
{
}

/// Only a callee that is reached through generated call targets returns a reference or
/// a float, unless it is inlined; and no inlined callee is reached that way or returns
/// nothing.
pub proof fn law_direct_callees_return_integers(kind: CallPolicyKind)
    ensures
        ({
            let (family, result, wrapped) = policy_shape(kind);
            &&& (result is Ref || result is Float) && !wrapped ==> family is Inline
            &&& family is Inline ==> !wrapped && !(result is Void)
            &&& (family is Pure || family is PureCannotRaise || family is PureOrMemerror)
                ==> !(result is Void)
        }),
{
}

/// Whether a statement is a call under a policy: it has the policy's family and leaves
/// what the policy says, and goes through generated call targets just where the policy
/// says so.
pub open spec fn is_call_under<'a>(
    stmt: StmtView<'a>,
    func: &'a Expr,
    kind: CallPolicyKind,
) -> bool {
    match stmt {
        Instr::Call { target, family: f, result: r, dst, .. } => {
            let (family, result, wrapped) = policy_shape(kind);
            &&& f == family
            &&& r == result
            &&& dst is Some == !(result is Void)
            &&& match target {
                CallTarget::FnPtr(g) => !wrapped && g == func,
                CallTarget::Wrapped(g) => wrapped && g == func,
                _ => false,
            }
        },
        _ => false,
    }
}

proof fn lemma_emitted_call<'a>(
    s: LowerState<'a>,
    func: &'a Expr,
    kind: CallPolicyKind,
    args: Seq<Binding>,
    dst: u16,
)
    requires
        ({
            let (family, result, wrapped) = policy_shape(kind);
            emit_call(s, policy_target(func, wrapped), family, result, args, dst).rejected is None
        }),
    ensures
        ({
            let (family, result, wrapped) = policy_shape(kind);
            let t = emit_call(s, policy_target(func, wrapped), family, result, args, dst);
            t.statements.len() == s.statements.len() + 1 && is_call_under(
                t.statements.last(),
                func,
                kind,
            )
        }),
{
    reveal(emit_call);
    let (family, result, wrapped) = policy_shape(kind);
    let target = policy_target(func, wrapped);
    let reads = slots_of(args);
    match result_bank(result) {
        None => {
            let stmt = Instr::Call { target, family, result, args: registers(reads), dst: None };
            lemma_emitted(s, OpKind::Call, reads, seq![], stmt);
        },
        Some(bank) => {
            let stmt = Instr::Call {
                target,
                family,
                result,
                args: registers(reads),
                dst: Some(dst),
            };
            lemma_emitted(s, OpKind::Call, reads, seq![Slot { kind: bank, reg: dst }], stmt);
        },
    }
}

/// A call under a declared policy adds one statement, a call under that policy, in value
/// position and in statement position. In value position a callee that returns nothing
/// is not called, and what comes back is in the bank of the policy's result.
pub proof fn law_call_is_made_under_its_policy<'a>(
    s: LowerState<'a>,
    func: &'a Expr,
    kind: CallPolicyKind,
    args: Seq<Binding>,
    reg: u16,
)
    requires
        !(policy_shape(kind).0 is Inline),
    ensures
        ({
            let (t, b) = call_result(s, func, args, CallPolicySpec::Explicit(kind), reg);
            &&& policy_shape(kind).1 is Void ==> b is None && t == s
            &&& b is Some && t.rejected is None ==> {
                &&& t.statements.len() == s.statements.len() + 1
                &&& is_call_under(t.statements.last(), func, kind)
                &&& match policy_shape(kind).1 {
                    CallResultKind::Int => b->0.kind is Int,
                    CallResultKind::Ref => b->0.kind is Ref,
                    CallResultKind::Float => b->0.kind is Float,
                    CallResultKind::Void => false,
                }
            }
        }),
        ({
            let (t, done) = call_stmt(s, func, args, CallPolicySpec::Explicit(kind));
            done && t.rejected is None ==> t.statements.len() == s.statements.len() + 1
                && is_call_under(t.statements.last(), func, kind)
        }),
{
    reveal(call_result);
    reveal(call_stmt);
    let policy = CallPolicySpec::Explicit(kind);
    let (t, b) = call_result(s, func, args, policy, reg);
    if b is Some && t.rejected is None {
        lemma_emitted_call(s, func, kind, args, reg);
    }
    let (u, done) = call_stmt(s, func, args, policy);
    if done && u.rejected is None {
        if policy_shape(kind).1 is Void {
            lemma_emitted_call(s, func, kind, args, 0);
        } else {
            reveal(LowerState::reg_taken);
            lemma_emitted_call(s.reg_taken(), func, kind, args, s.next_reg);
        }
    }
}

/// Whether an inline call of a family has a list for a bank.
pub open spec fn has_list(family: InlineFamily, kind: BindingKind) -> bool {
    match family {
        InlineFamily::R => kind is Ref,
        InlineFamily::Ir => kind is Ref || kind is Int,
        InlineFamily::Irf => true,
    }
}

/// An inline call has a list for the bank of each of its arguments, whatever it
/// returns; with a float result it has all three, and otherwise it has one for integers
/// or floats only where that is needed.
pub proof fn law_inline_call_has_a_list_for_each_argument(args: Seq<Binding>, j: int)
    requires
        0 <= j < args.len(),
    ensures
        ({
            let shape = inline_shape(args);
            &&& has_list(shape.on_int, args[j].kind)
            &&& has_list(shape.on_ref, args[j].kind)
            &&& shape.on_float is Irf
            &&& shape.on_int is Irf ==> exists|i: int|
                0 <= i < args.len() && (#[trigger] args[i]).kind is Float
            &&& shape.on_int is Ir ==> exists|i: int|
                0 <= i < args.len() && (#[trigger] args[i]).kind is Int
            &&& shape.on_ref == shape.on_int
        }),
{
    reveal(inline_shape);
    if args[j].kind is Int {
        assert(has_kind(args, BindingKind::Int));
    }
    if args[j].kind is Float {
        assert(has_kind(args, BindingKind::Float));
    }
}

// ── Dependence on the stack ──────────────────────────────────────────

/// A value depends on the interpreter's stack just where one of the values does that it
/// is computed from: an operand, or an argument of a call.
pub proof fn law_operation_depends_on_what_its_operands_depend_on<'a>(
    s: LowerState<'a>,
    e: &'a Expr,
)
    ensures
        e.kind matches ExprKind::Binary(b) ==> value(s, e).1 is Some ==> {
            let (s1, l) = value(s, &*b.left);
            let (_, r) = value(s1, &*b.right);
            value(s, e).1->0.depends_on_stack == (l->0.depends_on_stack || r->0.depends_on_stack)
        },
        e.kind matches ExprKind::Unary(u) ==> value(s, e).1 is Some ==> value(
            s,
            e,
        ).1->0.depends_on_stack == value(s, &*u.expr).1->0.depends_on_stack,
{
    match e.kind {
        ExprKind::Binary(_) => lemma_plain(s, e),
        ExprKind::Unary(_) => lemma_plain(s, e),
        _ => {},
    }
}

/// What a call returns depends on the interpreter's stack just where one of its
/// arguments does.
pub proof fn law_call_depends_on_what_its_arguments_depend_on<'a>(
    s: LowerState<'a>,
    func: &'a Expr,
    policy: CallPolicySpec,
    args: Seq<Binding>,
    reg: u16,
)
    requires
        call_result(s, func, args, policy, reg).1 is Some,
    ensures
        call_result(s, func, args, policy, reg).1->0.depends_on_stack <==> exists|i: int|
            0 <= i < args.len() && (#[trigger] args[i]).depends_on_stack,
{
    reveal(call_result);
    reveal(any_depends);
}

// ── Without code ─────────────────────────────────────────────────────

/// A block without a value returns nothing.
pub proof fn law_a_block_without_a_value_returns_nothing<'a>(s: LowerState<'a>, block: &'a Block)
    requires
        tail_expr(block.stmts@, block.stmts@.len() as int) is None,
        final_return(s, block).rejected is None,
    ensures
        final_return(s, block).statements == s.statements.push(Instr::Op(Op::VoidReturn)),
{
    reveal(final_return);
    reveal(LowerState::terminal);
    reveal(LowerState::push);
    reveal(LowerState::reject);
}

} // verus!
