//! Lowering only adds: the growth of every form.

use vstd::prelude::*;

use crate::ast::{Arm, Expr, ExprKind, Local, Pat, Stmt};
use crate::calls::{
    after_macro, call_result, call_stmt, conditional_call_tail, conditional_value_tail, emit_call,
    known_result_tail,
};
use crate::config::CallPolicySpec;
use crate::growth::{
    branch_between, group_labels, group_steps, grows, grows_aux, grows_bind, grows_by_branch,
    grows_emit_op, grows_further, grows_guard, grows_jump, grows_label_def, grows_label_taken,
    grows_labels, grows_live, grows_reg_taken, grows_reject, grows_self, label_between,
};
use crate::kinds::{Binding, ValueKind};
use crate::lower_spec::{
    arm_literals, arm_test, binary_value, block_value, bool_if, Branch, branch_block,
    branch_block_value, branch_expr, branch_value, call_args, call_value, conditional_call,
    conditional_call_list, conditional_value, conditional_value_list, config_call_stmt, default_arm,
    element_value, else_branch, expr_or_skip, expr_stmt, expr_stmt_control, expr_stmt_vable,
    guard_value, hint_identity, if_branches, if_stmt, if_stmt_tail, if_value, if_value_tail,
    index_assign, io_call_stmt, io_shim, is_default_arm, known_result, known_result_list,
    lemma_index_assign, lemma_macro_list, load_and_compare, loop_body, loop_expr, loop_if,
    loop_stmt, loop_stmts, lower_local, lower_stmt, lower_stmts, macro_args, macro_list, match_stmt,
    match_stmt_arms, match_value, match_value_arms, match_value_chain, method_value, move_int,
    or_literals, plain_value, promote_stmt, promote_value, referent_value, scoped_value, shim_call,
    state_array_read, state_array_write, state_field_read, state_field_update, state_field_write,
    store_element, store_updated, test_literal, vable_array_len, vable_array_read,
    vable_array_write, vable_field, vable_field_index, vable_field_read, vable_field_write,
    vable_force, vable_store, vable_value, value, value_attempts, value_steps, while_loop,
};
use crate::lowerer::{CallMacro, LowerState, ref_slot, Slot, vable_base};
use crate::ops::{CallTarget, IntOpcode, Label, Op, OpKind, RegisteredTarget};
use crate::policy::{CallFamily, CallResultKind, RaisingCodes};

verus! {

pub broadcast proof fn grows_state_field_read<'a>(s: LowerState<'a>, e: Expr)
    ensures
        grows(s, (#[trigger] state_field_read(s, e)).0),
{
    broadcast use group_steps;

    reveal(state_field_read);
}

pub broadcast proof fn grows_vable_field_read<'a>(s: LowerState<'a>, e: Expr)
    ensures
        grows(s, (#[trigger] vable_field_read(s, e)).0),
{
    broadcast use group_steps;

    reveal(vable_field_read);
}

pub broadcast proof fn grows_vable_array_len<'a>(s: LowerState<'a>, e: Expr)
    ensures
        grows(s, (#[trigger] vable_array_len(s, e)).0),
{
    broadcast use group_steps;

    reveal(vable_array_len);
}

pub broadcast proof fn grows_guard_value<'a>(s: LowerState<'a>, b: Binding)
    ensures
        grows(s, #[trigger] guard_value(s, b)),
{
    broadcast use group_steps;

    reveal(guard_value);
}

pub broadcast proof fn grows_move_int<'a>(s: LowerState<'a>, dst: u16, src: u16)
    ensures
        grows(s, #[trigger] move_int(s, dst, src)),
{
    broadcast use group_steps;

    reveal(move_int);
}

pub broadcast proof fn grows_load_and_compare<'a>(
    s: LowerState<'a>,
    disc: u16,
    v: i64,
    c: u16,
    eq: u16,
)
    ensures
        grows(s, #[trigger] load_and_compare(s, disc, v, c, eq)),
{
    broadcast use group_steps;

    reveal(load_and_compare);
}

pub broadcast proof fn grows_test_literal<'a>(s: LowerState<'a>, disc: u16, v: i64)
    ensures
        grows(s, #[trigger] test_literal(s, disc, v)),
{
    broadcast use group_steps;
    broadcast use grows_load_and_compare;

    reveal(test_literal);
}

pub broadcast proof fn grows_store_updated<'a>(
    s: LowerState<'a>,
    field: u16,
    opcode: IntOpcode,
    left: u16,
    right: u16,
)
    ensures
        grows(s, #[trigger] store_updated(s, field, opcode, left, right)),
{
    broadcast use group_steps;

    reveal(store_updated);
}

pub broadcast proof fn grows_store_element<'a>(s: LowerState<'a>, name: Seq<char>, idx: u16, v: u16)
    ensures
        grows(s, (#[trigger] store_element(s, name, idx, v)).0),
{
    broadcast use group_steps;

    reveal(store_element);
}

pub broadcast proof fn grows_vable_store<'a>(
    s: LowerState<'a>,
    array: u16,
    ty: ValueKind,
    base: u16,
    idx: u16,
    val: u16,
)
    ensures
        grows(s, #[trigger] vable_store(s, array, ty, base, idx, val)),
{
    broadcast use group_steps;

    reveal(vable_store);
}

pub broadcast proof fn grows_emit_call<'a>(
    s: LowerState<'a>,
    target: CallTarget<'a>,
    family: CallFamily,
    result: CallResultKind,
    args: Seq<Binding>,
    dst: u16,
)
    ensures
        grows(s, #[trigger] emit_call(s, target, family, result, args, dst)),
{
    broadcast use group_steps;

    reveal(emit_call);
}

pub broadcast proof fn grows_call_stmt<'a>(
    s: LowerState<'a>,
    func: &'a Expr,
    args: Seq<Binding>,
    policy: CallPolicySpec,
)
    ensures
        grows(s, (#[trigger] call_stmt(s, func, args, policy)).0),
{
    broadcast use group_steps;
    broadcast use grows_emit_call;

    reveal(call_stmt);
}

pub broadcast proof fn grows_call_result<'a>(
    s: LowerState<'a>,
    func: &'a Expr,
    args: Seq<Binding>,
    policy: CallPolicySpec,
    reg: u16,
)
    ensures
        grows(s, (#[trigger] call_result(s, func, args, policy, reg)).0),
{
    broadcast use group_steps;
    broadcast use grows_emit_call;

    reveal(call_result);
}

pub broadcast proof fn grows_after_macro<'a>(
    s: LowerState<'a>,
    target: RegisteredTarget<'a>,
    codes: RaisingCodes,
)
    ensures
        grows(s, #[trigger] after_macro(s, target, codes)),
{
    broadcast use group_steps;

    reveal(after_macro);
}

pub broadcast proof fn grows_conditional_call_tail<'a>(
    s: LowerState<'a>,
    func: &'a Expr,
    cond: u16,
    args: Seq<Binding>,
)
    ensures
        grows(s, (#[trigger] conditional_call_tail(s, func, cond, args)).0),
{
    broadcast use group_steps;
    broadcast use grows_after_macro;

    reveal(conditional_call_tail);
}

pub broadcast proof fn grows_conditional_value_tail<'a>(
    s: LowerState<'a>,
    func: &'a Expr,
    value: Binding,
    args: Seq<Binding>,
)
    ensures
        grows(s, (#[trigger] conditional_value_tail(s, func, value, args)).0),
{
    broadcast use group_steps;
    broadcast use grows_after_macro;

    reveal(conditional_value_tail);
}

pub broadcast proof fn grows_known_result_tail<'a>(
    s: LowerState<'a>,
    func: &'a Expr,
    result: Binding,
    args: Seq<Binding>,
)
    ensures
        grows(s, (#[trigger] known_result_tail(s, func, result, args)).0),
{
    broadcast use group_steps;
    broadcast use grows_after_macro;

    reveal(known_result_tail);
}

pub broadcast proof fn grows_shim_call<'a>(s: LowerState<'a>, shim: &'a String, b: Binding)
    ensures
        grows(s, #[trigger] shim_call(s, shim, b)),
{
    broadcast use group_steps;
    broadcast use grows_emit_call;

    reveal(shim_call);
}

pub proof fn grows_or_literals<'a>(s: LowerState<'a>, disc: u16, lits: Seq<i64>, i: int, acc: u16)
    ensures
        grows(s, or_literals(s, disc, lits, i, acc).0),
    decreases lits.len() - i,
{
    broadcast use {group_steps, grows_load_and_compare};

    reveal(or_literals);
    if 0 <= i < lits.len() {
        let c = s.next_reg;
        let eq = s.reg_taken().next_reg;
        let or = s.reg_taken().reg_taken().next_reg;
        let s1 = load_and_compare(s.reg_taken().reg_taken().reg_taken(), disc, lits[i], c, eq);
        let s2 = s1.emit_op(
            crate::ops::OpKind::BinopI,
            seq![crate::lowerer::int_slot(acc), crate::lowerer::int_slot(eq)],
            seq![crate::lowerer::int_slot(or)],
            Op::Binop(or, IntOpcode::IntOr, acc, eq),
        );
        grows_or_literals(s2, disc, lits, i + 1, or);
        assert(grows(s, s2));
    }
}

pub broadcast proof fn grows_arm_test<'a>(s: LowerState<'a>, disc: u16, lits: Seq<i64>, next: Label)
    ensures
        grows(s, #[trigger] arm_test(s, disc, lits, next)),
{
    broadcast use {group_steps, grows_test_literal};

    reveal(arm_test);
    let eq = s.reg_taken().next_reg;
    grows_or_literals(test_literal(s, disc, lits[0]), disc, lits, 1, eq);
}

/// The code of an `if` only adds to any state from which its labels and branches
/// came.
pub proof fn grows_if_value_tail<'a>(
    a: LowerState<'a>,
    s: LowerState<'a>,
    cond: u16,
    else_label: Label,
    end_label: Label,
    dst: u16,
    then_seq: Branch<'a>,
    then_reg: u16,
    else_seq: Branch<'a>,
    else_reg: u16,
    x: LowerState<'a>,
    y: LowerState<'a>,
)
    requires
        grows(a, x),
        grows(x, y),
        grows(y, s),
        branch_between(x, y, then_seq),
        branch_between(y, s, else_seq),
        label_between(a, s, else_label),
        label_between(a, s, end_label),
    ensures
        grows(
            a,
            if_value_tail(
                s,
                cond,
                else_label,
                end_label,
                dst,
                then_seq,
                then_reg,
                else_seq,
                else_reg,
            ),
        ),
{
    broadcast use {group_labels, grows_aux, grows_live, grows_guard, grows_move_int, grows_jump};

    reveal(if_value_tail);
    let head = s.aux(Op::NewLabel(else_label)).aux(Op::NewLabel(end_label)).live().guard(
        cond,
        else_label,
    );
    assert(grows(a, head));
    let then_part = move_int(head.append(then_seq), dst, then_reg).jump(end_label);
    assert(grows(a, then_part));
    assert(grows(a, then_part.label_def(else_label)));
}

pub proof fn grows_if_stmt_tail<'a>(
    a: LowerState<'a>,
    s: LowerState<'a>,
    cond: u16,
    else_label: Label,
    end_label: Label,
    then_seq: Branch<'a>,
    else_seq: Branch<'a>,
    x: LowerState<'a>,
    y: LowerState<'a>,
)
    requires
        grows(a, x),
        grows(x, y),
        grows(y, s),
        branch_between(x, y, then_seq),
        branch_between(y, s, else_seq),
        label_between(a, s, else_label),
        label_between(a, s, end_label),
    ensures
        grows(a, if_stmt_tail(s, cond, else_label, end_label, then_seq, else_seq)),
{
    broadcast use {group_labels, grows_aux, grows_live, grows_guard, grows_jump};

    reveal(if_stmt_tail);
    let head = s.aux(Op::NewLabel(else_label)).aux(Op::NewLabel(end_label)).live().guard(
        cond,
        else_label,
    );
    assert(grows(a, head));
    let then_part = head.append(then_seq).jump(end_label);
    assert(grows(a, then_part));
    assert(grows(a, then_part.label_def(else_label)));
}

// ── Values ───────────────────────────────────────────────────────────

proof fn lemma_call_arg(e: &Expr)
    ensures
        match e.kind {
            ExprKind::Call(c) => c.args@.len() > 0 ==> decreases_to!(e => c.args[0]),
            _ => true,
        },
{
}

proof fn lemma_assign_right(e: &Expr)
    ensures
        match e.kind {
            ExprKind::Assign(a) => decreases_to!(e => *a.right),
            _ => true,
        },
{
}

proof fn lemma_macro_single(e: &Expr)
    ensures
        match e.kind {
            ExprKind::Macro(m) => match m.single {
                Some(arg) => decreases_to!(e => *arg),
                None => true,
            },
            _ => true,
        },
{
}

/// An expression in value position only adds.
pub proof fn grows_value<'a>(s: LowerState<'a>, e: &'a Expr)
    ensures
        grows(s, value(s, e).0),
    decreases e, 12int,
{
    broadcast use {grows_self, grows_further};

    grows_value_attempts(s, e);
}

pub proof fn grows_value_attempts<'a>(s: LowerState<'a>, e: &'a Expr)
    ensures
        grows(s, value_attempts(s, e).0),
    decreases e, 11int,
{
    broadcast use {grows_self, grows_further};

    grows_value_steps(s, e);
}

pub proof fn grows_value_steps<'a>(s: LowerState<'a>, e: &'a Expr)
    ensures
        grows(s, value_steps(s, e).0),
    decreases e, 10int,
{
    broadcast use {
        grows_self,
        grows_further,
        grows_state_field_read,
        grows_vable_field_read,
        grows_vable_array_len,
    };

    let (s1, r1) = state_field_read(s, *e);
    if r1 is None {
        grows_state_array_read(s1, e);
        let (s2, r2) = state_array_read(s1, e);
        if r2 is None {
            let (s3, r3) = vable_field_read(s2, *e);
            if r3 is None {
                grows_vable_array_read(s3, e);
                let (s4, r4) = vable_array_read(s3, e);
                if r4 is None {
                    let (s5, r5) = vable_array_len(s4, *e);
                    if r5 is None {
                        grows_hint_identity(s5, e);
                        let (s6, r6) = hint_identity(s5, e);
                        if r6 is None {
                            grows_conditional_value(s6, e);
                            let (s7, r7) = conditional_value(s6, e);
                            if r7 is None {
                                grows_plain_value(s7, e);
                            }
                        }
                    }
                }
            }
        }
    }
}

pub proof fn grows_state_array_read<'a>(s: LowerState<'a>, e: &'a Expr)
    ensures
        grows(s, state_array_read(s, e).0),
    decreases e, 9int,
{
    broadcast use {grows_self, grows_further, grows_reg_taken, grows_emit_op};

    if let ExprKind::Index(x) = e.kind {
        grows_value(s, &*x.index);
    }
}

pub proof fn grows_vable_array_read<'a>(s: LowerState<'a>, e: &'a Expr)
    ensures
        grows(s, vable_array_read(s, e).0),
    decreases e, 9int,
{
    broadcast use {grows_self, grows_further, grows_reg_taken, grows_emit_op};

    if let ExprKind::Index(x) = e.kind {
        grows_value(s, &*x.index);
    }
}

pub proof fn grows_hint_identity<'a>(s: LowerState<'a>, e: &'a Expr)
    ensures
        grows(s, hint_identity(s, e).0),
    decreases e, 9int,
{
    broadcast use {grows_self, grows_further};

    if let ExprKind::Call(c) = e.kind {
        if c.args@.len() > 0 {
            grows_value(s, &c.args[0]);
        }
    }
}

pub proof fn grows_conditional_value<'a>(s: LowerState<'a>, e: &'a Expr)
    ensures
        grows(s, conditional_value(s, e).0),
    decreases e, 9int,
{
    broadcast use {grows_self, grows_further};

    lemma_macro_list(*e, "conditional_call_elidable"@);
    if let Some(list) = macro_list(*e, "conditional_call_elidable"@) {
        grows_conditional_value_list(s, &list);
    }
}

pub proof fn grows_conditional_value_list<'a>(s: LowerState<'a>, list: &'a Vec<Expr>)
    ensures
        grows(s, conditional_value_list(s, list).0),
    decreases list, list.len() + 2,
{
    broadcast use {grows_self, grows_further, grows_reject, grows_conditional_value_tail};

    if 2 <= list@.len() <= 6 {
        grows_value(s, &list[0]);
        let (s1, r1) = value(s, &list[0]);
        grows_macro_args(s1, list, 2, CallMacro::ConditionalCallElidable, seq![]);
    }
}

pub proof fn grows_macro_args<'a>(
    s: LowerState<'a>,
    list: &'a Vec<Expr>,
    i: int,
    mac: CallMacro,
    acc: Seq<Binding>,
)
    ensures
        grows(s, macro_args(s, list, i, mac, acc).0),
    decreases list, list.len() - i,
{
    broadcast use {grows_self, grows_further, grows_reject};

    if 0 <= i < list.len() {
        grows_value(s, &list[i]);
        if let (s1, Some(b)) = value(s, &list[i]) {
            grows_macro_args(s1, list, i + 1, mac, acc.push(b));
        }
    }
}

pub proof fn grows_call_args<'a>(s: LowerState<'a>, list: &'a Vec<Expr>, i: int, acc: Seq<Binding>)
    ensures
        grows(s, call_args(s, list, i, acc).0),
    decreases list, list.len() - i,
{
    broadcast use {grows_self, grows_further};

    if 0 <= i < list.len() {
        grows_value(s, &list[i]);
        if let (s1, Some(b)) = value(s, &list[i]) {
            grows_call_args(s1, list, i + 1, acc.push(b));
        }
    }
}

pub proof fn grows_plain_value<'a>(s: LowerState<'a>, e: &'a Expr)
    ensures
        grows(s, plain_value(s, e).0),
    decreases e, 9int,
{
    broadcast use {grows_self, grows_further, grows_reg_taken, grows_emit_op};

    match e.kind {
        ExprKind::Cast(c) => grows_value(s, &*c.expr),
        ExprKind::Paren(x) => grows_value(s, &*x),
        ExprKind::If(_) => grows_if_value(s, e),
        ExprKind::Match(_) => grows_match_value(s, e),
        ExprKind::Unary(u) => grows_value(s, &*u.expr),
        ExprKind::Binary(_) => grows_binary_value(s, e),
        ExprKind::Call(_) => {
            grows_promote_value(s, e);
            grows_call_value(promote_value(s, e).0, e);
        },
        ExprKind::MethodCall(_) => grows_method_value(s, e),
        _ => {},
    }
}

pub proof fn grows_binary_value<'a>(s: LowerState<'a>, e: &'a Expr)
    ensures
        grows(s, binary_value(s, e).0),
    decreases e, 8int,
{
    broadcast use {grows_self, grows_further, grows_reg_taken, grows_emit_op};

    if let ExprKind::Binary(b) = e.kind {
        grows_value(s, &*b.left);
        grows_value(value(s, &*b.left).0, &*b.right);
    }
}

pub proof fn grows_promote_value<'a>(s: LowerState<'a>, e: &'a Expr)
    ensures
        grows(s, promote_value(s, e).0),
    decreases e, 8int,
{
    broadcast use {grows_self, grows_further, grows_guard_value};

    if let ExprKind::Call(c) = e.kind {
        if c.args@.len() == 1 {
            grows_value(s, &c.args[0]);
        }
    }
}

pub proof fn grows_call_value<'a>(s: LowerState<'a>, e: &'a Expr)
    ensures
        grows(s, call_value(s, e).0),
    decreases e, 8int,
{
    broadcast use {grows_self, grows_further, grows_reg_taken, grows_call_result};

    if let ExprKind::Call(c) = e.kind {
        grows_call_args(s, &c.args, 0, seq![]);
    }
}

pub proof fn grows_method_value<'a>(s: LowerState<'a>, e: &'a Expr)
    ensures
        grows(s, method_value(s, e).0),
    decreases e, 8int,
{
    broadcast use {grows_self, grows_further, grows_reg_taken, grows_emit_call};

    if let ExprKind::MethodCall(c) = e.kind {
        grows_value(s, &*c.receiver);
        if let (s1, Some(receiver)) = value(s, &*c.receiver) {
            grows_call_args(s1, &c.args, 0, seq![receiver]);
        }
    }
}

pub proof fn grows_if_value<'a>(s: LowerState<'a>, e: &'a Expr)
    ensures
        grows(s, if_value(s, e).0),
    decreases e, 8int,
{
    broadcast use {
        grows_self,
        grows_further,
        grows_labels,
        grows_label_taken,
        grows_reg_taken,
    };

    grows_bool_if(s, e);
    let (s0, r0) = bool_if(s, e);
    if r0 is None {
        if let ExprKind::If(i) = e.kind {
            grows_value(s0, &*i.cond);
            if let Some(els) = i.else_branch {
                let s1 = value(s0, &*i.cond).0;
                let s2 = s1.label_taken().label_taken().reg_taken();
                grows_branch_block_value(s2, &i.then_branch.stmts);
                let (s3, then_part) = branch_block_value(s2, &i.then_branch.stmts);
                grows_branch_value(s3, &*els);
                let (s4, else_part) = branch_value(s3, &*els);
                if let (Some((then_seq, t)), Some((else_seq, f)), (s0c, Some(cond))) = (
                    then_part,
                    else_part,
                    value(s0, &*i.cond),
                ) {
                    grows_if_value_tail(
                        s1,
                        s4,
                        cond.reg,
                        s1.fresh_label(),
                        s1.label_taken().fresh_label(),
                        s1.label_taken().label_taken().next_reg,
                        then_seq,
                        t.reg,
                        else_seq,
                        f.reg,
                        s2,
                        s3,
                    );
                }
            }
        }
    }
}

pub proof fn grows_bool_if<'a>(s: LowerState<'a>, e: &'a Expr)
    ensures
        grows(s, bool_if(s, e).0),
    decreases e, 7int,
{
    broadcast use {grows_self, grows_further, grows_reg_taken, grows_emit_op};

    if let ExprKind::If(i) = e.kind {
        grows_value(s, &*i.cond);
    }
}

pub proof fn grows_branch_value<'a>(s: LowerState<'a>, e: &'a Expr)
    ensures
        grows(s, branch_value(s, e).0),
        match branch_value(s, e).1 {
            Some(b) => branch_between(s, branch_value(s, e).0, b.0),
            None => true,
        },
    decreases e, 14int,
{
    broadcast use {grows_self, grows_further};

    grows_scoped_value(s.nested(), e);
    grows_by_branch(s, scoped_value(s.nested(), e).0);
}

pub proof fn grows_branch_block_value<'a>(s: LowerState<'a>, stmts: &'a Vec<Stmt>)
    ensures
        grows(s, branch_block_value(s, stmts).0),
        match branch_block_value(s, stmts).1 {
            Some(b) => branch_between(s, branch_block_value(s, stmts).0, b.0),
            None => true,
        },
    decreases stmts, stmts.len() + 2,
{
    broadcast use {grows_self, grows_further};

    grows_block_value(s.nested(), stmts);
    grows_by_branch(s, block_value(s.nested(), stmts).0);
}

pub proof fn grows_scoped_value<'a>(s: LowerState<'a>, e: &'a Expr)
    ensures
        grows(s, scoped_value(s, e).0),
    decreases e, 13int,
{
    broadcast use {grows_self, grows_further};

    match e.kind {
        ExprKind::Block(b) => grows_block_value(s, &b.stmts),
        _ => grows_value(s, e),
    }
}

/// A block with a value only adds.
pub proof fn grows_block_value<'a>(s: LowerState<'a>, stmts: &'a Vec<Stmt>)
    ensures
        grows(s, block_value(s, stmts).0),
    decreases stmts, stmts.len() + 1,
{
    broadcast use {grows_self, grows_further};

    if stmts@.len() > 0 {
        grows_lower_stmts(s, stmts, 0, stmts.len() - 1);
        let s1 = lower_stmts(s, stmts, 0, stmts.len() - 1).0;
        if let Stmt::Expr(e, semi) = stmts[stmts.len() - 1] {
            grows_value(s1, &e);
        }
    }
}

pub proof fn grows_match_value<'a>(s: LowerState<'a>, e: &'a Expr)
    ensures
        grows(s, match_value(s, e).0),
    decreases e, 8int,
{
    broadcast use {
        grows_self,
        grows_further,
        grows_labels,
        grows_label_taken,
        grows_reg_taken,
        grows_aux,
    };

    if let ExprKind::Match(m) = e.kind {
        grows_value(s, &*m.expr);
        if let (s1, Some(disc)) = value(s, &*m.expr) {
            let end_label = s1.fresh_label();
            let dst = s1.label_taken().next_reg;
            let s2 = s1.label_taken().reg_taken().aux(Op::NewLabel(end_label));
            grows_match_value_chain(s1, s2, &m.arms, disc, end_label, dst);
        }
    }
}

pub proof fn grows_match_value_chain<'a>(
    a: LowerState<'a>,
    s: LowerState<'a>,
    arms: &'a Vec<Arm>,
    disc: Binding,
    end_label: Label,
    dst: u16,
)
    requires
        grows(a, s),
        label_between(a, s, end_label),
    ensures
        grows(a, match_value_chain(s, arms, disc, end_label, dst).0),
    decreases arms, arms.len() + 2,
{
    broadcast use {grows_self, grows_further, grows_labels, grows_label_def};

    grows_match_value_arms(s, arms, 0, disc.reg, end_label, dst, disc.depends_on_stack);
}

pub proof fn grows_match_value_arms<'a>(
    s: LowerState<'a>,
    arms: &'a Vec<Arm>,
    i: int,
    disc: u16,
    end_label: Label,
    dst: u16,
    depends: bool,
)
    ensures
        grows(s, match_value_arms(s, arms, i, disc, end_label, dst, depends).0),
    decreases arms, arms.len() - i,
{
    broadcast use {group_labels, grows_aux, grows_arm_test, grows_move_int, grows_jump};

    if 0 <= i < arms.len() {
        if is_default_arm(arms[i]) {
            grows_match_value_arms(s, arms, i + 1, disc, end_label, dst, depends);
        } else {
            let next = s.fresh_label();
            let s1 = arm_test(
                s.label_taken().aux(Op::NewLabel(next)),
                disc,
                arm_literals(arms[i])->0,
                next,
            );
            assert(decreases_to!(arms => arms[i]));
            grows_branch_value(s1, &*arms[i].body);
            if let (s2, Some((seq, b))) = branch_value(s1, &*arms[i].body) {
                if b.kind is Int {
                    let s3 = move_int(s2.append(seq), dst, b.reg).jump(end_label).label_def(next);
                    grows_match_value_arms(
                        s3,
                        arms,
                        i + 1,
                        disc,
                        end_label,
                        dst,
                        depends || b.depends_on_stack,
                    );
                    assert(grows(s, s2));
                    assert(grows(s, s3));
                }
            }
        }
    } else if let Some(d) = default_arm(arms@, arms.len() as int) {
        if 0 <= d < arms.len() {
            assert(decreases_to!(arms => arms[d]));
            grows_branch_value(s, &*arms[d].body);
        }
    }
}

// ── Statements ───────────────────────────────────────────────────────

pub proof fn grows_match_stmt<'a>(s: LowerState<'a>, e: &'a Expr)
    ensures
        grows(s, match_stmt(s, e).0),
    decreases e, 16int,
{
    broadcast use {group_labels, grows_aux};

    if let ExprKind::Match(m) = e.kind {
        grows_value(s, &*m.expr);
        if let (s1, Some(disc)) = value(s, &*m.expr) {
            let end_label = s1.fresh_label();
            let s2 = s1.label_taken().aux(Op::NewLabel(end_label));
            grows_match_stmt_arms(s2, &m.arms, 0, disc.reg, end_label);
        }
    }
}

pub proof fn grows_match_stmt_arms<'a>(
    s: LowerState<'a>,
    arms: &'a Vec<Arm>,
    i: int,
    disc: u16,
    end_label: Label,
)
    ensures
        grows(s, match_stmt_arms(s, arms, i, disc, end_label).0),
    decreases arms, arms.len() - i,
{
    broadcast use {group_labels, grows_aux, grows_arm_test, grows_jump};

    if 0 <= i < arms.len() {
        if is_default_arm(arms[i]) {
            grows_match_stmt_arms(s, arms, i + 1, disc, end_label);
        } else {
            let next = s.fresh_label();
            let s1 = arm_test(
                s.label_taken().aux(Op::NewLabel(next)),
                disc,
                arm_literals(arms[i])->0,
                next,
            );
            assert(decreases_to!(arms => arms[i]));
            grows_branch_expr(s1, &*arms[i].body);
            if let (s2, Some(seq)) = branch_expr(s1, &*arms[i].body) {
                let s3 = s2.append(seq).jump(end_label).label_def(next);
                grows_match_stmt_arms(s3, arms, i + 1, disc, end_label);
                assert(grows(s, s2));
                assert(grows(s, s3));
            }
        }
    } else if let Some(d) = default_arm(arms@, arms.len() as int) {
        if 0 <= d < arms.len() {
            assert(decreases_to!(arms => arms[d]));
            grows_branch_expr(s, &*arms[d].body);
        }
    }
}

/// A statement only adds.
pub proof fn grows_lower_stmt<'a>(s: LowerState<'a>, stmt: &'a Stmt)
    ensures
        grows(s, lower_stmt(s, stmt).0),
    decreases stmt, 1int,
{
    broadcast use {grows_self, grows_further, grows_emit_op};

    match *stmt {
        Stmt::Local(l) => grows_lower_local(s, &l),
        Stmt::Expr(e, _) => grows_expr_or_skip(s, &e),
        _ => {},
    }
}

/// Statements only add.
pub proof fn grows_lower_stmts<'a>(s: LowerState<'a>, stmts: &'a Vec<Stmt>, i: int, end: int)
    ensures
        grows(s, lower_stmts(s, stmts, i, end).0),
    decreases stmts, stmts.len() - i,
{
    broadcast use {grows_self, grows_further};

    if 0 <= i < end && end <= stmts.len() {
        grows_lower_stmt(s, &stmts[i]);
        if let (s1, true) = lower_stmt(s, &stmts[i]) {
            grows_lower_stmts(s1, stmts, i + 1, end);
        }
    }
}

pub proof fn grows_lower_local<'a>(s: LowerState<'a>, l: &'a Local)
    ensures
        grows(s, lower_local(s, l).0),
    decreases l, 0int,
{
    broadcast use {
        grows_self,
        grows_further,
        grows_aux,
        grows_bind,
        grows_reg_taken,
        grows_emit_op,
    };

    if let (Pat::Ident(p), Some(init)) = (l.pat, l.init) {
        grows_value(s, &*init.expr);
    }
}

pub proof fn grows_expr_or_skip<'a>(s: LowerState<'a>, e: &'a Expr)
    ensures
        grows(s, expr_or_skip(s, e).0),
    decreases e, 20int,
{
    broadcast use {grows_self, grows_further};

    grows_expr_stmt(s, e);
}

pub proof fn grows_expr_stmt<'a>(s: LowerState<'a>, e: &'a Expr)
    ensures
        grows(s, expr_stmt(s, e).0),
    decreases e, 19int,
{
    broadcast use {grows_self, grows_further};

    grows_promote_stmt(s, e);
    let (s1, r1) = promote_stmt(s, e);
    if !r1 {
        grows_state_field_update(s1, e);
        let (s2, r2) = state_field_update(s1, e);
        if !r2 {
            grows_state_field_write(s2, e);
            let (s3, r3) = state_field_write(s2, e);
            if !r3 {
                grows_state_array_write(s3, e);
                let (s4, r4) = state_array_write(s3, e);
                if !r4 {
                    grows_expr_stmt_vable(s4, e);
                }
            }
        }
    }
}

pub proof fn grows_expr_stmt_vable<'a>(s: LowerState<'a>, e: &'a Expr)
    ensures
        grows(s, expr_stmt_vable(s, e).0),
    decreases e, 18int,
{
    broadcast use {grows_self, grows_further};

    grows_vable_field_write(s, e);
    let (s5, r5) = vable_field_write(s, e);
    if !r5 {
        grows_vable_array_write(s5, e);
        let (s6, r6) = vable_array_write(s5, e);
        if !r6 {
            grows_vable_force(s6, e);
            let (s7, r7) = vable_force(s6, e);
            if !r7 {
                grows_conditional_call(s7, e);
                let (s8, r8) = conditional_call(s7, e);
                if !r8 {
                    grows_known_result(s8, e);
                    let (s9, r9) = known_result(s8, e);
                    if !r9 {
                        grows_expr_stmt_control(s9, e);
                    }
                }
            }
        }
    }
}

pub proof fn grows_expr_stmt_control<'a>(s: LowerState<'a>, e: &'a Expr)
    ensures
        grows(s, expr_stmt_control(s, e).0),
    decreases e, 17int,
{
    broadcast use {grows_self, grows_further};

    match e.kind {
        ExprKind::If(_) => grows_if_stmt(s, e),
        ExprKind::Match(_) => grows_match_stmt(s, e),
        ExprKind::While(_) => grows_while_loop(s, e),
        ExprKind::Loop(_) => grows_loop_expr(s, e),
        ExprKind::ForLoop(_) => {},
        _ => {
            grows_config_call_stmt(s, e);
            grows_io_call_stmt(config_call_stmt(s, e).0, e);
        },
    }
}

pub proof fn grows_promote_stmt<'a>(s: LowerState<'a>, e: &'a Expr)
    ensures
        grows(s, promote_stmt(s, e).0),
    decreases e, 16int,
{
    broadcast use {grows_self, grows_further, grows_bind};

    lemma_assign_right(e);
    if let ExprKind::Assign(a) = e.kind {
        grows_value(s, &*a.right);
    }
    grows_value(s, e);
}

pub proof fn grows_state_field_update<'a>(s: LowerState<'a>, e: &'a Expr)
    ensures
        grows(s, state_field_update(s, e).0),
    decreases e, 16int,
{
    broadcast use {grows_self, grows_further, grows_state_field_read, grows_store_updated};

    if let ExprKind::Binary(b) = e.kind {
        grows_value(state_field_read(s, *b.left).0, &*b.right);
    }
}

proof fn grows_vable_field_write_by<'a>(s: LowerState<'a>, e: &'a Expr)
    requires
        match e.kind {
            ExprKind::Assign(a) => grows(s, value(s, &*a.right).0),
            _ => true,
        },
    ensures
        grows(s, vable_field_write(s, e).0),
{
    broadcast use {grows_self, grows_further};

    if let ExprKind::Assign(a) = e.kind {
        if let Some(name) = vable_field(s.ctx.config, *a.left) {
            if let (Some((field, ty)), Some(base)) = (
                vable_field_index(s.ctx.config, name),
                vable_base(s),
            ) {
                if let (s1, Some(b)) = value(s, &*a.right) {
                    grows_emit_op(
                        s1,
                        OpKind::Vable,
                        seq![ref_slot(base), Slot { kind: ty.bank(), reg: b.reg }],
                        seq![],
                        Op::VableSetfield(ty, base, field, b.reg),
                    );
                }
            }
        }
    }
}

pub proof fn grows_vable_field_write<'a>(s: LowerState<'a>, e: &'a Expr)
    ensures
        grows(s, vable_field_write(s, e).0),
    decreases e, 16int,
{
    broadcast use {grows_self, grows_further, grows_emit_op};

    lemma_assign_right(e);
    if let ExprKind::Assign(a) = e.kind {
        grows_value(s, &*a.right);
    }
    grows_vable_field_write_by(s, e);
}

pub proof fn grows_state_field_write<'a>(s: LowerState<'a>, e: &'a Expr)
    ensures
        grows(s, state_field_write(s, e).0),
    decreases e, 16int,
{
    broadcast use {grows_self, grows_further, grows_emit_op};

    lemma_assign_right(e);
    if let ExprKind::Assign(a) = e.kind {
        grows_value(s, &*a.right);
    }
}

pub proof fn grows_element_value<'a>(s: LowerState<'a>, right: &'a Expr, name: Seq<char>, idx: u16)
    ensures
        grows(s, element_value(s, right, name, idx).0),
    decreases right, 13int,
{
    broadcast use {grows_self, grows_further, grows_store_element};

    grows_value(s, right);
}

pub proof fn grows_state_array_write<'a>(s: LowerState<'a>, e: &'a Expr)
    ensures
        grows(s, state_array_write(s, e).0),
    decreases e, 16int,
{
    broadcast use {grows_self, grows_further};

    lemma_index_assign(*e);
    if let Some((array, index, right)) = index_assign(*e) {
        grows_value(s, &index);
        if let (Some(name), (s1, Some(idx))) = (
            crate::lower_spec::state_array_name(s.ctx.config, array),
            value(s, &index),
        ) {
            grows_element_value(s1, &right, name, idx.reg);
        }
    }
}

pub proof fn grows_vable_value<'a>(
    s: LowerState<'a>,
    right: &'a Expr,
    array: u16,
    ty: ValueKind,
    base: u16,
    idx: u16,
)
    ensures
        grows(s, vable_value(s, right, array, ty, base, idx).0),
    decreases right, 13int,
{
    broadcast use {grows_self, grows_further, grows_vable_store};

    grows_value(s, right);
}

pub proof fn grows_vable_array_write<'a>(s: LowerState<'a>, e: &'a Expr)
    ensures
        grows(s, vable_array_write(s, e).0),
    decreases e, 16int,
{
    broadcast use {grows_self, grows_further};

    lemma_index_assign(*e);
    if let Some((array, index, right)) = index_assign(*e) {
        grows_value(s, &index);
        if let (Some((number, ty, base)), (s1, Some(idx))) = (
            crate::lower_spec::vable_array_target(s, array),
            value(s, &index),
        ) {
            grows_vable_value(s1, &right, number, ty, base, idx.reg);
        }
    }
}

pub proof fn grows_vable_force<'a>(s: LowerState<'a>, e: &'a Expr)
    ensures
        grows(s, vable_force(s, e).0),
    decreases e, 16int,
{
    broadcast use {grows_self, grows_further, grows_emit_op};

    lemma_macro_single(e);
    if let ExprKind::Macro(m) = e.kind {
        if let Some(arg) = m.single {
            grows_value(s, &*arg);
        }
    }
}

pub proof fn grows_conditional_call<'a>(s: LowerState<'a>, e: &'a Expr)
    ensures
        grows(s, conditional_call(s, e).0),
    decreases e, 16int,
{
    broadcast use {grows_self, grows_further};

    lemma_macro_list(*e, "conditional_call"@);
    if let Some(list) = macro_list(*e, "conditional_call"@) {
        grows_conditional_call_list(s, &list);
    }
}

pub proof fn grows_known_result<'a>(s: LowerState<'a>, e: &'a Expr)
    ensures
        grows(s, known_result(s, e).0),
    decreases e, 16int,
{
    broadcast use {grows_self, grows_further};

    lemma_macro_list(*e, "record_known_result"@);
    if let Some(list) = macro_list(*e, "record_known_result"@) {
        grows_known_result_list(s, &list);
    }
}

pub proof fn grows_conditional_call_list<'a>(s: LowerState<'a>, list: &'a Vec<Expr>)
    ensures
        grows(s, conditional_call_list(s, list).0),
    decreases list, list.len() + 2,
{
    broadcast use {grows_self, grows_further, grows_reject, grows_conditional_call_tail};

    if 2 <= list@.len() <= 6 {
        grows_value(s, &list[0]);
        let s1 = value(s, &list[0]).0;
        grows_macro_args(s1, list, 2, CallMacro::ConditionalCall, seq![]);
    }
}

pub proof fn grows_known_result_list<'a>(s: LowerState<'a>, list: &'a Vec<Expr>)
    ensures
        grows(s, known_result_list(s, list).0),
    decreases list, list.len() + 2,
{
    broadcast use {grows_self, grows_further, grows_reject, grows_known_result_tail};

    if 2 <= list@.len() {
        grows_value(s, &list[0]);
        let s1 = value(s, &list[0]).0;
        grows_macro_args(s1, list, 2, CallMacro::RecordKnownResult, seq![]);
    }
}

/// A helper call in statement position only adds.
pub proof fn grows_config_call_stmt<'a>(s: LowerState<'a>, e: &'a Expr)
    ensures
        grows(s, config_call_stmt(s, e).0),
    decreases e, 16int,
{
    broadcast use {grows_self, grows_further, grows_call_stmt};

    if let ExprKind::Call(c) = e.kind {
        grows_call_args(s, &c.args, 0, seq![]);
    }
}

pub proof fn grows_referent_value<'a>(s: LowerState<'a>, e: &'a Expr)
    ensures
        grows(s, referent_value(s, e).0),
    decreases e, 13int,
{
    broadcast use {grows_self, grows_further};

    match e.kind {
        ExprKind::Reference(x) => grows_value(s, &*x),
        _ => grows_value(s, e),
    }
}

pub proof fn grows_io_call_stmt<'a>(s: LowerState<'a>, e: &'a Expr)
    ensures
        grows(s, io_call_stmt(s, e).0),
    decreases e, 16int,
{
    broadcast use {grows_self, grows_further, grows_shim_call};

    lemma_call_arg(e);
    if let ExprKind::Call(c) = e.kind {
        if let Some(shim) = io_shim(s.ctx.config, *c.func) {
            if c.args@.len() > 0 {
                grows_referent_value(s, &c.args[0]);
                let (s1, r1) = referent_value(s, &c.args[0]);
                assert(grows(s, s1));
                if let Some(b) = r1 {
                    let s2 = shim_call(s1, &shim, b);
                    assert(grows(s1, s2));
                    assert(io_call_stmt(s, e).0 == s2);
                } else {
                    assert(io_call_stmt(s, e).0 == s1);
                }
            } else {
                assert(io_call_stmt(s, e).0 == s);
            }
        } else {
            assert(io_call_stmt(s, e).0 == s);
        }
    } else {
        assert(io_call_stmt(s, e).0 == s);
    }
}

pub proof fn grows_if_stmt<'a>(s: LowerState<'a>, e: &'a Expr)
    ensures
        grows(s, if_stmt(s, e).0),
    decreases e, 16int,
{
    broadcast use {grows_self, grows_further};

    if let ExprKind::If(i) = e.kind {
        grows_value(s, &*i.cond);
        if let (s1, Some(cond)) = value(s, &*i.cond) {
            grows_if_branches(s1, e, cond.reg);
        }
    }
}

pub proof fn grows_if_branches<'a>(s: LowerState<'a>, e: &'a Expr, cond: u16)
    ensures
        grows(s, if_branches(s, e, cond).0),
    decreases e, 15int,
{
    broadcast use {grows_self, grows_further, grows_labels, grows_label_taken};

    if let ExprKind::If(i) = e.kind {
        let s1 = s.label_taken().label_taken();
        grows_branch_block(s1, &i.then_branch.stmts);
        let (s2, then_part) = branch_block(s1, &i.then_branch.stmts);
        grows_else_branch(s2, e);
        let (s3, else_part) = else_branch(s2, e);
        if let (Some(then_seq), Some(else_seq)) = (then_part, else_part) {
            grows_if_stmt_tail(
                s,
                s3,
                cond,
                s.fresh_label(),
                s.label_taken().fresh_label(),
                then_seq,
                else_seq,
                s1,
                s2,
            );
        }
    }
}

pub proof fn grows_else_branch<'a>(s: LowerState<'a>, e: &'a Expr)
    ensures
        grows(s, else_branch(s, e).0),
        match else_branch(s, e).1 {
            Some(b) => branch_between(s, else_branch(s, e).0, b),
            None => true,
        },
    decreases e, 14int,
{
    broadcast use {grows_self, grows_further};

    if let ExprKind::If(i) = e.kind {
        if let Some(x) = i.else_branch {
            grows_branch_expr(s, &*x);
        } else {
            reveal(branch_between);
        }
    }
}

pub proof fn grows_branch_expr<'a>(s: LowerState<'a>, e: &'a Expr)
    ensures
        grows(s, branch_expr(s, e).0),
        match branch_expr(s, e).1 {
            Some(b) => branch_between(s, branch_expr(s, e).0, b),
            None => true,
        },
    decreases e, 21int,
{
    broadcast use {grows_self, grows_further};

    match e.kind {
        ExprKind::Block(b) => grows_branch_block(s, &b.stmts),
        _ => {
            grows_expr_or_skip(s.nested(), e);
            grows_by_branch(s, expr_or_skip(s.nested(), e).0);
        },
    }
}

pub proof fn grows_branch_block<'a>(s: LowerState<'a>, stmts: &'a Vec<Stmt>)
    ensures
        grows(s, branch_block(s, stmts).0),
        match branch_block(s, stmts).1 {
            Some(b) => branch_between(s, branch_block(s, stmts).0, b),
            None => true,
        },
    decreases stmts, stmts.len() + 1,
{
    broadcast use {grows_self, grows_further};

    grows_lower_stmts(s.nested(), stmts, 0, stmts.len() as int);
    grows_by_branch(s, lower_stmts(s.nested(), stmts, 0, stmts.len() as int).0);
}

// ── Loops ────────────────────────────────────────────────────────────

pub proof fn grows_while_loop<'a>(s: LowerState<'a>, e: &'a Expr)
    ensures
        grows(s, while_loop(s, e).0),
    decreases e, 16int,
{
    broadcast use {group_labels, grows_aux, grows_live, grows_guard, grows_jump};

    if let ExprKind::While(w) = e.kind {
        let start = s.fresh_label();
        let end = s.label_taken().fresh_label();
        let s1 = s.label_taken().label_taken().aux(Op::NewLabel(start)).aux(
            Op::NewLabel(end),
        ).label_def(start);
        grows_value(s1, &*w.cond);
        if let (s2, Some(cond)) = value(s1, &*w.cond) {
            grows_loop_body(s2.live().guard(cond.reg, end), &w.body.stmts, end, start);
        }
    }
}

pub proof fn grows_loop_expr<'a>(s: LowerState<'a>, e: &'a Expr)
    ensures
        grows(s, loop_expr(s, e).0),
    decreases e, 16int,
{
    broadcast use {group_labels, grows_aux, grows_jump};

    if let ExprKind::Loop(b) = e.kind {
        let start = s.fresh_label();
        let end = s.label_taken().fresh_label();
        let s1 = s.label_taken().label_taken().aux(Op::NewLabel(start)).aux(
            Op::NewLabel(end),
        ).label_def(start);
        grows_loop_body(s1, &b.stmts, end, start);
    }
}

pub proof fn grows_loop_body<'a>(
    s: LowerState<'a>,
    stmts: &'a Vec<Stmt>,
    break_label: Label,
    continue_label: Label,
)
    ensures
        grows(s, loop_body(s, stmts, break_label, continue_label).0),
        match loop_body(s, stmts, break_label, continue_label).1 {
            Some(b) => branch_between(s, loop_body(s, stmts, break_label, continue_label).0, b),
            None => true,
        },
    decreases stmts, stmts.len() + 1,
{
    broadcast use {grows_self, grows_further};

    grows_loop_stmts(s.nested(), stmts, 0, break_label, continue_label);
    grows_by_branch(s, loop_stmts(s.nested(), stmts, 0, break_label, continue_label).0);
}

pub proof fn grows_loop_stmts<'a>(
    s: LowerState<'a>,
    stmts: &'a Vec<Stmt>,
    i: int,
    break_label: Label,
    continue_label: Label,
)
    ensures
        grows(s, loop_stmts(s, stmts, i, break_label, continue_label).0),
    decreases stmts, stmts.len() - i,
{
    broadcast use {grows_self, grows_further};

    if 0 <= i < stmts.len() {
        grows_loop_stmt(s, &stmts[i], break_label, continue_label);
        let (s1, r1) = loop_stmt(s, &stmts[i], break_label, continue_label);
        if r1 {
            grows_loop_stmts(s1, stmts, i + 1, break_label, continue_label);
        } else {
            grows_lower_stmt(s1, &stmts[i]);
            let s2 = lower_stmt(s1, &stmts[i]).0;
            grows_loop_stmts(s2, stmts, i + 1, break_label, continue_label);
        }
    }
}

pub proof fn grows_loop_stmt<'a>(
    s: LowerState<'a>,
    stmt: &'a Stmt,
    break_label: Label,
    continue_label: Label,
)
    ensures
        grows(s, loop_stmt(s, stmt, break_label, continue_label).0),
    decreases stmt, 1int,
{
    broadcast use {grows_self, grows_further, grows_jump};

    if let Stmt::Expr(e, _) = *stmt {
        if let ExprKind::If(_) = e.kind {
            grows_loop_if(s, &e, break_label, continue_label);
        }
    }
}

pub proof fn grows_loop_if<'a>(
    s: LowerState<'a>,
    e: &'a Expr,
    break_label: Label,
    continue_label: Label,
)
    ensures
        grows(s, loop_if(s, e, break_label, continue_label).0),
    decreases e, 16int,
{
    broadcast use {group_labels, grows_aux, grows_live, grows_guard, grows_jump};

    if let ExprKind::If(i) = e.kind {
        grows_value(s, &*i.cond);
        if let (s1, Some(cond)) = value(s, &*i.cond) {
            let else_label = s1.fresh_label();
            let end_label = s1.label_taken().fresh_label();
            let s2 = s1.label_taken().label_taken().aux(Op::NewLabel(else_label)).aux(
                Op::NewLabel(end_label),
            ).live().guard(cond.reg, else_label);
            grows_loop_body(s2, &i.then_branch.stmts, break_label, continue_label);
            if let (s3, Some(then_seq)) = loop_body(
                s2,
                &i.then_branch.stmts,
                break_label,
                continue_label,
            ) {
                let s4 = s3.append(then_seq).jump(end_label).label_def(else_label);
                assert(grows(s1, s3));
                assert(grows(s1, s4));
                if let Some(x) = i.else_branch {
                    if let ExprKind::Block(b) = x.kind {
                        grows_loop_body(s4, &b.stmts, break_label, continue_label);
                    }
                }
            }
        }
    }
}

} // verus!
