//! Values bind nothing: the scope of every form in value position.

use vstd::prelude::*;

use crate::ast::{Arm, Expr, ExprKind, Stmt};
use crate::calls::{after_macro, call_result, conditional_value_tail, emit_call};
use crate::config::CallPolicySpec;
use crate::scope::{
    group_steps, same_scope, scope_append, scope_aux, scope_emit_op, scope_further, scope_jump,
    scope_label_def, scope_label_taken, scope_of_branch, scope_reg_taken, scope_reject, scope_self,
};
use crate::kinds::Binding;
use crate::lower_spec::{
    arm_literals, arm_test, binary_value, block_value, bool_if, Branch, branch_block_value,
    branch_value, call_args, call_value, conditional_value, conditional_value_list, default_arm,
    else_branch, guard_value, hint_identity, if_value, if_value_tail, is_default_arm,
    lemma_macro_list, load_and_compare, macro_args, macro_list, match_value, match_value_arms,
    match_value_chain, method_value, move_int, or_literals, plain_value, promote_value,
    scoped_value, state_array_read, state_field_read, test_literal, vable_array_len,
    vable_array_read, vable_field_read, value, value_attempts, value_steps,
};
use crate::lowerer::{CallMacro, LowerState};
use crate::ops::{CallTarget, IntOpcode, Label, Op, OpKind, RegisteredTarget};
use crate::policy::{CallFamily, CallResultKind, RaisingCodes};

verus! {

pub broadcast proof fn scope_state_field_read<'a>(s: LowerState<'a>, e: Expr)
    ensures
        same_scope(s, (#[trigger] state_field_read(s, e)).0),
{
    broadcast use group_steps;

    reveal(state_field_read);
}

pub broadcast proof fn scope_vable_field_read<'a>(s: LowerState<'a>, e: Expr)
    ensures
        same_scope(s, (#[trigger] vable_field_read(s, e)).0),
{
    broadcast use group_steps;

    reveal(vable_field_read);
}

pub broadcast proof fn scope_vable_array_len<'a>(s: LowerState<'a>, e: Expr)
    ensures
        same_scope(s, (#[trigger] vable_array_len(s, e)).0),
{
    broadcast use group_steps;

    reveal(vable_array_len);
}

pub broadcast proof fn scope_guard_value<'a>(s: LowerState<'a>, b: Binding)
    ensures
        same_scope(s, #[trigger] guard_value(s, b)),
{
    broadcast use group_steps;

    reveal(guard_value);
}

pub broadcast proof fn scope_move_int<'a>(s: LowerState<'a>, dst: u16, src: u16)
    ensures
        same_scope(s, #[trigger] move_int(s, dst, src)),
{
    broadcast use group_steps;

    reveal(move_int);
}

pub broadcast proof fn scope_load_and_compare<'a>(
    s: LowerState<'a>,
    disc: u16,
    v: i64,
    c: u16,
    eq: u16,
)
    ensures
        same_scope(s, #[trigger] load_and_compare(s, disc, v, c, eq)),
{
    broadcast use group_steps;

    reveal(load_and_compare);
}

pub broadcast proof fn scope_test_literal<'a>(s: LowerState<'a>, disc: u16, v: i64)
    ensures
        same_scope(s, #[trigger] test_literal(s, disc, v)),
{
    broadcast use group_steps;
    broadcast use scope_load_and_compare;

    reveal(test_literal);
}

pub broadcast proof fn scope_emit_call<'a>(
    s: LowerState<'a>,
    target: CallTarget<'a>,
    family: CallFamily,
    result: CallResultKind,
    args: Seq<Binding>,
    dst: u16,
)
    ensures
        same_scope(s, #[trigger] emit_call(s, target, family, result, args, dst)),
{
    broadcast use group_steps;

    reveal(emit_call);
}

pub broadcast proof fn scope_call_result<'a>(
    s: LowerState<'a>,
    func: &'a Expr,
    args: Seq<Binding>,
    policy: CallPolicySpec,
    reg: u16,
)
    ensures
        same_scope(s, (#[trigger] call_result(s, func, args, policy, reg)).0),
{
    broadcast use group_steps;
    broadcast use scope_emit_call;

    reveal(call_result);
}

pub broadcast proof fn scope_after_macro<'a>(
    s: LowerState<'a>,
    target: RegisteredTarget<'a>,
    codes: RaisingCodes,
)
    ensures
        same_scope(s, #[trigger] after_macro(s, target, codes)),
{
    broadcast use group_steps;

    reveal(after_macro);
}

pub broadcast proof fn scope_conditional_value_tail<'a>(
    s: LowerState<'a>,
    func: &'a Expr,
    value: Binding,
    args: Seq<Binding>,
)
    ensures
        same_scope(s, (#[trigger] conditional_value_tail(s, func, value, args)).0),
{
    broadcast use group_steps;
    broadcast use scope_after_macro;

    reveal(conditional_value_tail);
}

pub proof fn scope_or_literals<'a>(s: LowerState<'a>, disc: u16, lits: Seq<i64>, i: int, acc: u16)
    ensures
        same_scope(s, or_literals(s, disc, lits, i, acc).0),
    decreases lits.len() - i,
{
    broadcast use {group_steps, scope_load_and_compare};

    reveal(or_literals);
    if 0 <= i < lits.len() {
        let c = s.next_reg;
        let eq = s.reg_taken().next_reg;
        let or = s.reg_taken().reg_taken().next_reg;
        let s1 = load_and_compare(s.reg_taken().reg_taken().reg_taken(), disc, lits[i], c, eq);
        let s2 = s1.emit_op(
            crate::ops::OpKind::BinopI,
            seq![crate::lowerer::int_slot(acc), crate::lowerer::int_slot(eq)],
            seq![crate::lowerer::int_slot(or)],
            Op::Binop(or, IntOpcode::IntOr, acc, eq),
        );
        scope_or_literals(s2, disc, lits, i + 1, or);
        assert(same_scope(s, s2));
    }
}

pub broadcast proof fn scope_arm_test<'a>(s: LowerState<'a>, disc: u16, lits: Seq<i64>, next: Label)
    ensures
        same_scope(s, #[trigger] arm_test(s, disc, lits, next)),
{
    broadcast use {group_steps, scope_test_literal};

    reveal(arm_test);
    let eq = s.reg_taken().next_reg;
    scope_or_literals(test_literal(s, disc, lits[0]), disc, lits, 1, eq);
}

pub broadcast proof fn scope_if_value_tail<'a>(
    s: LowerState<'a>,
    cond: u16,
    else_label: Label,
    end_label: Label,
    dst: u16,
    then_seq: Branch<'a>,
    then_reg: u16,
    else_seq: Branch<'a>,
    else_reg: u16,
)
    ensures
        same_scope(
            s,
            #[trigger] if_value_tail(
                s,
                cond,
                else_label,
                end_label,
                dst,
                then_seq,
                then_reg,
                else_seq,
                else_reg,
            ),
        ),
{
    broadcast use {group_steps, scope_move_int};

    reveal(if_value_tail);
}

// ── Values ───────────────────────────────────────────────────────────

proof fn lemma_call_arg(e: &Expr)
    ensures
        match e.kind {
            ExprKind::Call(c) => c.args@.len() > 0 ==> decreases_to!(e => c.args[0]),
            _ => true,
        },
{
}

/// An expression in value position binds nothing and leaves the dispatch alone.
pub proof fn scope_value<'a>(s: LowerState<'a>, e: &'a Expr)
    ensures
        same_scope(s, value(s, e).0),
    decreases e, 12int,
{
    broadcast use {scope_self, scope_further};

    scope_value_attempts(s, e);
}

pub proof fn scope_value_attempts<'a>(s: LowerState<'a>, e: &'a Expr)
    ensures
        same_scope(s, value_attempts(s, e).0),
    decreases e, 11int,
{
    broadcast use {scope_self, scope_further};

    scope_value_steps(s, e);
}

pub proof fn scope_value_steps<'a>(s: LowerState<'a>, e: &'a Expr)
    ensures
        same_scope(s, value_steps(s, e).0),
    decreases e, 10int,
{
    broadcast use {
        scope_self,
        scope_further,
        scope_state_field_read,
        scope_vable_field_read,
        scope_vable_array_len,
    };

    let (s1, r1) = state_field_read(s, *e);
    if r1 is None {
        scope_state_array_read(s1, e);
        let (s2, r2) = state_array_read(s1, e);
        if r2 is None {
            let (s3, r3) = vable_field_read(s2, *e);
            if r3 is None {
                scope_vable_array_read(s3, e);
                let (s4, r4) = vable_array_read(s3, e);
                if r4 is None {
                    let (s5, r5) = vable_array_len(s4, *e);
                    if r5 is None {
                        scope_hint_identity(s5, e);
                        let (s6, r6) = hint_identity(s5, e);
                        if r6 is None {
                            scope_conditional_value(s6, e);
                            let (s7, r7) = conditional_value(s6, e);
                            if r7 is None {
                                scope_plain_value(s7, e);
                            }
                        }
                    }
                }
            }
        }
    }
}

pub proof fn scope_state_array_read<'a>(s: LowerState<'a>, e: &'a Expr)
    ensures
        same_scope(s, state_array_read(s, e).0),
    decreases e, 9int,
{
    broadcast use {scope_self, scope_further, scope_reg_taken, scope_emit_op};

    if let ExprKind::Index(x) = e.kind {
        scope_value(s, &*x.index);
    }
}

pub proof fn scope_vable_array_read<'a>(s: LowerState<'a>, e: &'a Expr)
    ensures
        same_scope(s, vable_array_read(s, e).0),
    decreases e, 9int,
{
    broadcast use {scope_self, scope_further, scope_reg_taken, scope_emit_op};

    if let ExprKind::Index(x) = e.kind {
        scope_value(s, &*x.index);
    }
}

pub proof fn scope_hint_identity<'a>(s: LowerState<'a>, e: &'a Expr)
    ensures
        same_scope(s, hint_identity(s, e).0),
    decreases e, 9int,
{
    broadcast use {scope_self, scope_further};

    if let ExprKind::Call(c) = e.kind {
        if c.args@.len() > 0 {
            scope_value(s, &c.args[0]);
        }
    }
}

pub proof fn scope_conditional_value<'a>(s: LowerState<'a>, e: &'a Expr)
    ensures
        same_scope(s, conditional_value(s, e).0),
    decreases e, 9int,
{
    broadcast use {scope_self, scope_further};

    lemma_macro_list(*e, "conditional_call_elidable"@);
    if let Some(list) = macro_list(*e, "conditional_call_elidable"@) {
        scope_conditional_value_list(s, &list);
    }
}

pub proof fn scope_conditional_value_list<'a>(s: LowerState<'a>, list: &'a Vec<Expr>)
    ensures
        same_scope(s, conditional_value_list(s, list).0),
    decreases list, list.len() + 2,
{
    broadcast use {scope_self, scope_further, scope_reject, scope_conditional_value_tail};

    if 2 <= list@.len() <= 6 {
        scope_value(s, &list[0]);
        let (s1, r1) = value(s, &list[0]);
        scope_macro_args(s1, list, 2, CallMacro::ConditionalCallElidable, seq![]);
    }
}

pub proof fn scope_macro_args<'a>(
    s: LowerState<'a>,
    list: &'a Vec<Expr>,
    i: int,
    mac: CallMacro,
    acc: Seq<Binding>,
)
    ensures
        same_scope(s, macro_args(s, list, i, mac, acc).0),
    decreases list, list.len() - i,
{
    broadcast use {scope_self, scope_further, scope_reject};

    if 0 <= i < list.len() {
        scope_value(s, &list[i]);
        if let (s1, Some(b)) = value(s, &list[i]) {
            scope_macro_args(s1, list, i + 1, mac, acc.push(b));
        }
    }
}

pub proof fn scope_call_args<'a>(s: LowerState<'a>, list: &'a Vec<Expr>, i: int, acc: Seq<Binding>)
    ensures
        same_scope(s, call_args(s, list, i, acc).0),
    decreases list, list.len() - i,
{
    broadcast use {scope_self, scope_further};

    if 0 <= i < list.len() {
        scope_value(s, &list[i]);
        if let (s1, Some(b)) = value(s, &list[i]) {
            scope_call_args(s1, list, i + 1, acc.push(b));
        }
    }
}

pub proof fn scope_plain_value<'a>(s: LowerState<'a>, e: &'a Expr)
    ensures
        same_scope(s, plain_value(s, e).0),
    decreases e, 9int,
{
    broadcast use {scope_self, scope_further, scope_reg_taken, scope_emit_op};

    match e.kind {
        ExprKind::Cast(c) => scope_value(s, &*c.expr),
        ExprKind::Paren(x) => scope_value(s, &*x),
        ExprKind::If(_) => scope_if_value(s, e),
        ExprKind::Match(_) => scope_match_value(s, e),
        ExprKind::Unary(u) => scope_value(s, &*u.expr),
        ExprKind::Binary(_) => scope_binary_value(s, e),
        ExprKind::Call(_) => {
            scope_promote_value(s, e);
            scope_call_value(promote_value(s, e).0, e);
        },
        ExprKind::MethodCall(_) => scope_method_value(s, e),
        _ => {},
    }
}

pub proof fn scope_binary_value<'a>(s: LowerState<'a>, e: &'a Expr)
    ensures
        same_scope(s, binary_value(s, e).0),
    decreases e, 8int,
{
    broadcast use {scope_self, scope_further, scope_reg_taken, scope_emit_op};

    if let ExprKind::Binary(b) = e.kind {
        scope_value(s, &*b.left);
        scope_value(value(s, &*b.left).0, &*b.right);
    }
}

pub proof fn scope_promote_value<'a>(s: LowerState<'a>, e: &'a Expr)
    ensures
        same_scope(s, promote_value(s, e).0),
    decreases e, 8int,
{
    broadcast use {scope_self, scope_further, scope_guard_value};

    if let ExprKind::Call(c) = e.kind {
        if c.args@.len() == 1 {
            scope_value(s, &c.args[0]);
        }
    }
}

pub proof fn scope_call_value<'a>(s: LowerState<'a>, e: &'a Expr)
    ensures
        same_scope(s, call_value(s, e).0),
    decreases e, 8int,
{
    broadcast use {scope_self, scope_further, scope_reg_taken, scope_call_result};

    if let ExprKind::Call(c) = e.kind {
        scope_call_args(s, &c.args, 0, seq![]);
    }
}

pub proof fn scope_method_value<'a>(s: LowerState<'a>, e: &'a Expr)
    ensures
        same_scope(s, method_value(s, e).0),
    decreases e, 8int,
{
    broadcast use {scope_self, scope_further, scope_reg_taken, scope_emit_call};

    if let ExprKind::MethodCall(c) = e.kind {
        scope_value(s, &*c.receiver);
        if let (s1, Some(receiver)) = value(s, &*c.receiver) {
            scope_call_args(s1, &c.args, 0, seq![receiver]);
        }
    }
}

pub proof fn scope_if_value<'a>(s: LowerState<'a>, e: &'a Expr)
    ensures
        same_scope(s, if_value(s, e).0),
    decreases e, 8int,
{
    broadcast use {
        scope_self,
        scope_further,
        scope_label_taken,
        scope_reg_taken,
        scope_if_value_tail,
    };

    scope_bool_if(s, e);
    let (s0, r0) = bool_if(s, e);
    if r0 is None {
        if let ExprKind::If(i) = e.kind {
            scope_value(s0, &*i.cond);
            if let Some(els) = i.else_branch {
                let s1 = value(s0, &*i.cond).0;
                let s2 = s1.label_taken().label_taken().reg_taken();
                scope_branch_block_value(s2, &i.then_branch.stmts);
                scope_branch_value(branch_block_value(s2, &i.then_branch.stmts).0, &*els);
            }
        }
    }
}

pub proof fn scope_bool_if<'a>(s: LowerState<'a>, e: &'a Expr)
    ensures
        same_scope(s, bool_if(s, e).0),
    decreases e, 7int,
{
    broadcast use {scope_self, scope_further, scope_reg_taken, scope_emit_op};

    if let ExprKind::If(i) = e.kind {
        scope_value(s, &*i.cond);
    }
}

pub proof fn scope_branch_value<'a>(s: LowerState<'a>, e: &'a Expr)
    ensures
        same_scope(s, branch_value(s, e).0),
    decreases e, 14int,
{
    broadcast use {scope_self, scope_further};

    scope_of_branch(s, scoped_value(s.nested(), e).0);
}

pub proof fn scope_branch_block_value<'a>(s: LowerState<'a>, stmts: &'a Vec<Stmt>)
    ensures
        same_scope(s, branch_block_value(s, stmts).0),
    decreases stmts, stmts.len() + 2,
{
    broadcast use {scope_self, scope_further};

    scope_of_branch(s, block_value(s.nested(), stmts).0);
}

pub proof fn scope_match_value<'a>(s: LowerState<'a>, e: &'a Expr)
    ensures
        same_scope(s, match_value(s, e).0),
    decreases e, 8int,
{
    broadcast use {scope_self, scope_further, scope_label_taken, scope_reg_taken, scope_aux};

    if let ExprKind::Match(m) = e.kind {
        scope_value(s, &*m.expr);
        if let (s1, Some(disc)) = value(s, &*m.expr) {
            let end_label = s1.fresh_label();
            let dst = s1.label_taken().next_reg;
            let s2 = s1.label_taken().reg_taken().aux(Op::NewLabel(end_label));
            scope_match_value_chain(s2, &m.arms, disc, end_label, dst);
        }
    }
}

pub proof fn scope_match_value_chain<'a>(
    s: LowerState<'a>,
    arms: &'a Vec<Arm>,
    disc: Binding,
    end_label: Label,
    dst: u16,
)
    ensures
        same_scope(s, match_value_chain(s, arms, disc, end_label, dst).0),
    decreases arms, arms.len() + 2,
{
    broadcast use {scope_self, scope_further, scope_label_def};

    scope_match_value_arms(s, arms, 0, disc.reg, end_label, dst, disc.depends_on_stack);
}

pub proof fn scope_match_value_arms<'a>(
    s: LowerState<'a>,
    arms: &'a Vec<Arm>,
    i: int,
    disc: u16,
    end_label: Label,
    dst: u16,
    depends: bool,
)
    ensures
        same_scope(s, match_value_arms(s, arms, i, disc, end_label, dst, depends).0),
    decreases arms, arms.len() - i,
{
    broadcast use {
        scope_self,
        scope_further,
        scope_label_taken,
        scope_aux,
        scope_arm_test,
        scope_append,
        scope_move_int,
        scope_jump,
        scope_label_def,
    };

    if 0 <= i < arms.len() {
        if is_default_arm(arms[i]) {
            scope_match_value_arms(s, arms, i + 1, disc, end_label, dst, depends);
        } else {
            let next = s.fresh_label();
            let s1 = arm_test(
                s.label_taken().aux(Op::NewLabel(next)),
                disc,
                arm_literals(arms[i])->0,
                next,
            );
            assert(decreases_to!(arms => arms[i]));
            scope_branch_value(s1, &*arms[i].body);
            if let (s2, Some((seq, b))) = branch_value(s1, &*arms[i].body) {
                if b.kind is Int {
                    let s3 = move_int(s2.append(seq), dst, b.reg).jump(end_label).label_def(next);
                    scope_match_value_arms(
                        s3,
                        arms,
                        i + 1,
                        disc,
                        end_label,
                        dst,
                        depends || b.depends_on_stack,
                    );
                    assert(same_scope(s, s2) && same_scope(s2, s3));
                }
            }
        }
    } else if let Some(d) = default_arm(arms@, arms.len() as int) {
        if 0 <= d < arms.len() {
            assert(decreases_to!(arms => arms[d]));
            scope_branch_value(s, &*arms[d].body);
        }
    }
}

} // verus!
