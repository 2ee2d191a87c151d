//! Which code runs at branches and in loops.

use vstd::prelude::*;

use crate::ast::{Block, Expr, ExprIf, ExprKind, ExprWhile, Stmt};
use crate::code_runs::{
    added, held, later, lemma_append, lemma_aux, lemma_emitted_op, lemma_guarded, lemma_jump,
    lemma_label_def, lemma_live, lemma_not_rejected, lemma_taken, ran,
};
use crate::growth::{grows, mark, marked};
use crate::growth_forms::{grows_loop_body, grows_value};
use crate::kinds::Binding;
use crate::lower_spec::{
    bool_if, branch_block, branch_block_value, branch_expr, branch_value, else_branch, expr_stmt,
    if_stmt, if_stmt_tail, if_value_tail, index_assign, is_promotion, loop_body, loop_expr,
    loop_stmts, lower_stmts, macro_list, move_int, promoted_name, update_target, value, while_loop,
};
use crate::lowerer::{int_slot, LowerState};
use crate::machine::{
    Control, control, defines, gets, leaves, lemma_first, lemma_inside, lemma_run_push,
    lemma_step_gets, lemma_then, Machine, part_of, runs, step, World,
};
use crate::ops::{Instr, Label, Op, OpKind, StmtView};
use crate::value_laws::lemma_plain;

verus! {

// ── Code of a branch ─────────────────────────────────────────────────

pub open spec fn test_stmt<'a>(c: u16, l: Label) -> StmtView<'a> {
    Instr::Op(Op::GotoIfNotIntIsTrue(c, l))
}

pub open spec fn jump_to<'a>(l: Label) -> StmtView<'a> {
    Instr::Op(Op::Jump(l))
}

pub open spec fn if_code<'a>(
    head: Seq<StmtView<'a>>,
    c: u16,
    other: Label,
    then_code: Seq<StmtView<'a>>,
    end: Label,
    else_code: Seq<StmtView<'a>>,
) -> Seq<StmtView<'a>> {
    ((head.push(test_stmt(c, other)) + then_code).push(jump_to(end)).push(mark(other)) + else_code).push(
        mark(end),
    )
}

/// Where the parts of a branch stand.
proof fn lemma_if_parts<'a>(
    head: Seq<StmtView<'a>>,
    c: u16,
    other: Label,
    then_code: Seq<StmtView<'a>>,
    end: Label,
    else_code: Seq<StmtView<'a>>,
)
    ensures
        ({
            let code = if_code(head, c, other, then_code, end, else_code);
            let p = head.len() as int;
            let q = p + 1 + then_code.len();
            let z = q + 2 + else_code.len();
            &&& code.len() == z + 1
            &&& part_of(code, 0, head)
            &&& code[p] == test_stmt::<'a>(c, other)
            &&& part_of(code, p + 1, then_code)
            &&& code[q] == jump_to::<'a>(end)
            &&& marked(code, q + 1, other)
            &&& part_of(code, q + 2, else_code)
            &&& marked(code, z, end)
        }),
{
}

/// Control comes to the then part where the condition is not 0, and to the else part
/// where it is.
proof fn lemma_if_entered<'a>(
    w: World<'a>,
    head: Seq<StmtView<'a>>,
    c: u16,
    other: Label,
    then_code: Seq<StmtView<'a>>,
    end: Label,
    else_code: Seq<StmtView<'a>>,
    m: Machine<'a>,
    x: Machine<'a>,
)
    requires
        runs(w, head, m, x),
    ensures
        ({
            let code = if_code(head, c, other, then_code, end, else_code);
            let p = head.len() + 1;
            let q = head.len() + 3 + then_code.len();
            gets(
                w,
                code,
                m,
                0,
                x,
                if x.word(c) != 0 {
                    p as int
                } else {
                    q as int
                },
            )
        }),
{
    lemma_if_parts(head, c, other, then_code, end, else_code);
    let code = if_code(head, c, other, then_code, end, else_code);
    let p = head.len() as int;
    let q = p + 1 + then_code.len();
    lemma_inside(w, code, 0, head, m, 0, x, p);
    if x.word(c) != 0 {
        assert(step(w, code, x, p, x, p + 1));
        lemma_step_gets(w, code, x, p, x, p + 1);
        lemma_then(w, code, m, 0, x, p, x, p + 1);
    } else {
        assert(step(w, code, x, p, x, q + 1));
        lemma_step_gets(w, code, x, p, x, q + 1);
        assert(step(w, code, x, q + 1, x, q + 2));
        lemma_step_gets(w, code, x, q + 1, x, q + 2);
        lemma_then(w, code, x, p, x, q + 1, x, q + 2);
        lemma_then(w, code, m, 0, x, p, x, q + 2);
    }
}

proof fn lemma_if_runs<'a>(
    w: World<'a>,
    head: Seq<StmtView<'a>>,
    c: u16,
    other: Label,
    then_code: Seq<StmtView<'a>>,
    end: Label,
    else_code: Seq<StmtView<'a>>,
    m: Machine<'a>,
    x: Machine<'a>,
    n: Machine<'a>,
)
    requires
        runs(w, head, m, x),
        x.word(c) != 0 ==> runs(w, then_code, x, n),
        x.word(c) == 0 ==> runs(w, else_code, x, n),
    ensures
        runs(w, if_code(head, c, other, then_code, end, else_code), m, n),
{
    lemma_if_parts(head, c, other, then_code, end, else_code);
    lemma_if_entered(w, head, c, other, then_code, end, else_code, m, x);
    let code = if_code(head, c, other, then_code, end, else_code);
    let p = head.len() as int;
    let q = p + 1 + then_code.len();
    let z = q + 2 + else_code.len();
    if x.word(c) != 0 {
        lemma_inside(w, code, p + 1, then_code, x, 0, n, then_code.len() as int);
        assert(step(w, code, n, q, n, z));
        lemma_step_gets(w, code, n, q, n, z);
        lemma_then(w, code, x, p + 1, n, q, n, z);
        lemma_then(w, code, m, 0, x, p + 1, n, z);
    } else {
        lemma_inside(w, code, q + 2, else_code, x, 0, n, else_code.len() as int);
        lemma_then(w, code, m, 0, x, q + 2, n, z);
    }
    assert(step(w, code, n, z, n, z + 1));
    lemma_step_gets(w, code, n, z, n, z + 1);
    lemma_then(w, code, m, 0, n, z, n, z + 1);
}

proof fn lemma_if_leaves<'a>(
    w: World<'a>,
    head: Seq<StmtView<'a>>,
    c: u16,
    other: Label,
    then_code: Seq<StmtView<'a>>,
    end: Label,
    else_code: Seq<StmtView<'a>>,
    m: Machine<'a>,
    x: Machine<'a>,
    n: Machine<'a>,
    l: Label,
)
    requires
        runs(w, head, m, x),
        x.word(c) != 0 ==> leaves(w, then_code, x, n, l),
        x.word(c) == 0 ==> leaves(w, else_code, x, n, l),
        !defines(if_code(head, c, other, then_code, end, else_code), l),
    ensures
        leaves(w, if_code(head, c, other, then_code, end, else_code), m, n, l),
{
    lemma_if_parts(head, c, other, then_code, end, else_code);
    lemma_if_entered(w, head, c, other, then_code, end, else_code, m, x);
    let code = if_code(head, c, other, then_code, end, else_code);
    let p = head.len() as int;
    let q = p + 1 + then_code.len();
    let (part, at) = if x.word(c) != 0 {
        (then_code, p + 1)
    } else {
        (else_code, q + 2)
    };
    let pc = choose|pc: int| #[trigger]
        gets(w, part, x, 0, n, pc) && 0 <= pc < part.len() && control(part[pc], n)
            == Control::Goes(l);
    lemma_inside(w, code, at, part, x, 0, n, pc);
    lemma_then(w, code, m, 0, x, at, n, at + pc);
    assert(part[pc] == code[at + pc]);
}

/// Whether added code goes on with one of two codes behind its head, by a register,
/// and with what stands behind it afterwards; and where the chosen code is left by a
/// jump out of it, so is the added code.
pub open spec fn chooses<'a>(
    s: LowerState<'a>,
    head: LowerState<'a>,
    t: LowerState<'a>,
    c: u16,
    then_code: Seq<StmtView<'a>>,
    else_code: Seq<StmtView<'a>>,
) -> bool {
    &&& forall|w: World<'a>, m: Machine<'a>, x: Machine<'a>, n: Machine<'a>| #[trigger]
        ran(w, s, head, m, x) && x.word(c) != 0 && #[trigger] runs(w, then_code, x, n) ==> ran(
            w,
            s,
            t,
            m,
            n,
        )
    &&& forall|w: World<'a>, m: Machine<'a>, x: Machine<'a>, n: Machine<'a>| #[trigger]
        ran(w, s, head, m, x) && x.word(c) == 0 && #[trigger] runs(w, else_code, x, n) ==> ran(
            w,
            s,
            t,
            m,
            n,
        )
    &&& forall|w: World<'a>, m: Machine<'a>, x: Machine<'a>, n: Machine<'a>, l: Label| #[trigger]
        ran(w, s, head, m, x) && x.word(c) != 0 && #[trigger] leaves(w, then_code, x, n, l)
            && !defines(added(s, t), l) ==> leaves(w, added(s, t), m, n, l)
    &&& forall|w: World<'a>, m: Machine<'a>, x: Machine<'a>, n: Machine<'a>, l: Label| #[trigger]
        ran(w, s, head, m, x) && x.word(c) == 0 && #[trigger] leaves(w, else_code, x, n, l)
            && !defines(added(s, t), l) ==> leaves(w, added(s, t), m, n, l)
}

/// Two labels, a live marker and a test behind a head.
pub open spec fn tested<'a>(
    head: Seq<StmtView<'a>>,
    other: Label,
    end: Label,
) -> Seq<StmtView<'a>> {
    head.push(Instr::Op(Op::NewLabel(other))).push(Instr::Op(Op::NewLabel(end))).push(
        Instr::Op(Op::LivePlaceholder),
    )
}

proof fn lemma_tested<'a>(
    w: World<'a>,
    head: Seq<StmtView<'a>>,
    other: Label,
    end: Label,
    m: Machine<'a>,
    x: Machine<'a>,
)
    requires
        runs(w, head, m, x),
    ensures
        runs(w, tested(head, other, end), m, x),
{
    lemma_run_push(w, head, Instr::Op(Op::NewLabel(other)), m, x);
    let one = head.push(Instr::Op(Op::NewLabel(other)));
    lemma_run_push(w, one, Instr::Op(Op::NewLabel(end)), m, x);
    lemma_run_push(
        w,
        one.push(Instr::Op(Op::NewLabel(end))),
        Instr::Op(Op::LivePlaceholder),
        m,
        x,
    );
}

pub proof fn lemma_chooses<'a>(
    s: LowerState<'a>,
    head: LowerState<'a>,
    t: LowerState<'a>,
    c: u16,
    other: Label,
    end: Label,
    then_code: Seq<StmtView<'a>>,
    else_code: Seq<StmtView<'a>>,
)
    requires
        s.statements.is_prefix_of(t.statements),
        added(s, t) == if_code(
            tested(added(s, head), other, end),
            c,
            other,
            then_code,
            end,
            else_code,
        ),
    ensures
        chooses(s, head, t, c, then_code, else_code),
{
    reveal(ran);
    let h = tested(added(s, head), other, end);
    assert forall|w: World<'a>, m: Machine<'a>, x: Machine<'a>, n: Machine<'a>| #[trigger]
        ran(w, s, head, m, x) && x.word(c) != 0 && #[trigger] runs(w, then_code, x, n) implies ran(
        w,
        s,
        t,
        m,
        n,
    ) by {
        lemma_tested(w, added(s, head), other, end, m, x);
        lemma_if_runs(w, h, c, other, then_code, end, else_code, m, x, n);
    }
    assert forall|w: World<'a>, m: Machine<'a>, x: Machine<'a>, n: Machine<'a>| #[trigger]
        ran(w, s, head, m, x) && x.word(c) == 0 && #[trigger] runs(w, else_code, x, n) implies ran(
        w,
        s,
        t,
        m,
        n,
    ) by {
        lemma_tested(w, added(s, head), other, end, m, x);
        lemma_if_runs(w, h, c, other, then_code, end, else_code, m, x, n);
    }
    assert forall|w: World<'a>, m: Machine<'a>, x: Machine<'a>, n: Machine<'a>, l: Label| #[trigger]
        ran(w, s, head, m, x) && x.word(c) != 0 && #[trigger] leaves(w, then_code, x, n, l)
            && !defines(added(s, t), l) implies leaves(w, added(s, t), m, n, l) by {
        lemma_tested(w, added(s, head), other, end, m, x);
        lemma_if_leaves(w, h, c, other, then_code, end, else_code, m, x, n, l);
    }
    assert forall|w: World<'a>, m: Machine<'a>, x: Machine<'a>, n: Machine<'a>, l: Label| #[trigger]
        ran(w, s, head, m, x) && x.word(c) == 0 && #[trigger] leaves(w, else_code, x, n, l)
            && !defines(added(s, t), l) implies leaves(w, added(s, t), m, n, l) by {
        lemma_tested(w, added(s, head), other, end, m, x);
        lemma_if_leaves(w, h, c, other, then_code, end, else_code, m, x, n, l);
    }
}

// ── `if` in statement position ───────────────────────────────────────

/// Whether the code is that of the block in a state.
pub open spec fn is_block_code<'a>(
    q: LowerState<'a>,
    stmts: &'a Vec<Stmt>,
    code: Seq<StmtView<'a>>,
) -> bool {
    branch_block(q, stmts).1 matches Some(b) && b.0 == code
}

/// Whether the code is that of the `else` branch in a state; without one, it is
/// empty.
pub open spec fn is_else_code<'a>(q: LowerState<'a>, i: ExprIf, code: Seq<StmtView<'a>>) -> bool {
    match i.else_branch {
        Some(x) => branch_expr(q, &*x).1 matches Some(b) && b.0 == code,
        None => code.len() == 0,
    }
}

/// A form of control is tried as nothing else.
pub proof fn lemma_control_form<'a>(s: LowerState<'a>, e: &'a Expr)
    ensures
        e.kind is If ==> expr_stmt(s, e) == if_stmt(s, e),
        e.kind is While ==> expr_stmt(s, e) == while_loop(s, e),
        e.kind is Loop ==> expr_stmt(s, e) == loop_expr(s, e),
{
    reveal(promoted_name);
    reveal(is_promotion);
    reveal(update_target);
    reveal(index_assign);
    reveal(macro_list);
}

pub proof fn lemma_joined_later<'a>(s: LowerState<'a>, n: LowerState<'a>)
    ensures
        later(s, s.joined(n)),
        s.joined(n).statements == s.statements,
        s.joined(n).rejected == n.rejected,
{
    reveal(LowerState::joined);
}

pub proof fn lemma_else_later<'a>(s: LowerState<'a>, e: &'a Expr)
    requires
        else_branch(s, e).1 is Some,
    ensures
        later(s, else_branch(s, e).0),
        else_branch(s, e).0.statements == s.statements,
{
    match e.kind {
        ExprKind::If(i) => match i.else_branch {
            Some(x) => {
                lemma_branch_expr_later(s, &*x);
            },
            None => {},
        },
        _ => {},
    }
}

proof fn lemma_branch_expr_later<'a>(s: LowerState<'a>, e: &'a Expr)
    requires
        branch_expr(s, e).1 is Some,
    ensures
        later(s, branch_expr(s, e).0),
        branch_expr(s, e).0.statements == s.statements,
{
    match e.kind {
        ExprKind::Block(b) => {
            lemma_joined_later(s, lower_stmts(s.nested(), &b.stmts, 0, b.stmts.len() as int).0);
        },
        _ => {
            lemma_joined_later(s, crate::lower_spec::expr_or_skip(s.nested(), e).0);
        },
    }
}

#[verifier::rlimit(40)]
pub proof fn lemma_if_stmt_tail<'a>(
    s: LowerState<'a>,
    c: u16,
    other: Label,
    end: Label,
    a: crate::lower_spec::Branch<'a>,
    b: crate::lower_spec::Branch<'a>,
)
    requires
        if_stmt_tail(s, c, other, end, a, b).rejected is None,
    ensures
        s.rejected is None,
        if_stmt_tail(s, c, other, end, a, b).statements == if_code(
            tested(s.statements, other, end),
            c,
            other,
            a.0,
            end,
            b.0,
        ),
{
    reveal(if_stmt_tail);
    let s1 = s.aux(Op::NewLabel(other));
    let s2 = s1.aux(Op::NewLabel(end));
    let s3 = s2.live();
    let s4 = s3.guard(c, other);
    let s5 = s4.append(a);
    let s6 = s5.jump(end);
    let s7 = s6.label_def(other);
    let s8 = s7.append(b);
    let s9 = s8.label_def(end);
    lemma_label_def(s8, end);
    lemma_append(s7, b);
    lemma_label_def(s6, other);
    lemma_jump(s5, end);
    lemma_append(s4, a);
    lemma_guarded(s3, c, other);
    lemma_live(s2);
    lemma_aux(s1, Op::NewLabel(end));
    lemma_aux(s, Op::NewLabel(other));
}

/// Code behind a prefix.
pub proof fn lemma_if_code_behind<'a>(
    s: LowerState<'a>,
    head: LowerState<'a>,
    t: LowerState<'a>,
    c: u16,
    other: Label,
    end: Label,
    a: Seq<StmtView<'a>>,
    b: Seq<StmtView<'a>>,
)
    requires
        s.statements.is_prefix_of(head.statements),
        t.statements == if_code(tested(head.statements, other, end), c, other, a, end, b),
    ensures
        s.statements.is_prefix_of(t.statements),
        added(s, t) == if_code(tested(added(s, head), other, end), c, other, a, end, b),
{
    assert forall|i: int| 0 <= i < s.statements.len() implies s.statements[i]
        == t.statements[i] by {
        assert(s.statements[i] == head.statements[i]);
    }
    assert(added(s, t) =~= if_code(tested(added(s, head), other, end), c, other, a, end, b));
}

/// When the code of an `if` in statement position runs, its condition runs first.
/// Where the condition is not 0, the code of the then block runs and that of the
/// `else` branch does not; where it is 0, the other way round. Control then is behind
/// the code.
pub proof fn law_if_runs_the_branch_of_its_condition<'a>(s: LowerState<'a>, e: &'a Expr, i: ExprIf)
    requires
        e.kind == ExprKind::If(i),
        expr_stmt(s, e).1,
        expr_stmt(s, e).0.rejected is None,
    ensures
        ({
            let (s1, cond) = value(s, &*i.cond);
            let t = expr_stmt(s, e).0;
            &&& cond is Some
            &&& later(s1, t)
            &&& exists|
                p: LowerState<'a>,
                then_code: Seq<StmtView<'a>>,
                q: LowerState<'a>,
                else_code: Seq<StmtView<'a>>,
            |
                #![trigger is_block_code(p, &i.then_branch.stmts, then_code), is_else_code(q, i, else_code)]
                later(s1, p) && later(s1, q) && is_block_code(p, &i.then_branch.stmts, then_code)
                    && is_else_code(q, i, else_code) && chooses(
                    s,
                    s1,
                    t,
                    cond->0.reg,
                    then_code,
                    else_code,
                )
        }),
{
    lemma_control_form(s, e);
    let (s1, cond) = value(s, &*i.cond);
    let c = cond->0.reg;
    let other = s1.fresh_label();
    let end = s1.label_taken().fresh_label();
    let p = s1.label_taken().label_taken();
    lemma_taken(s1);
    lemma_taken(s1.label_taken());
    let (q, a) = branch_block(p, &i.then_branch.stmts);
    lemma_joined_later(
        p,
        lower_stmts(p.nested(), &i.then_branch.stmts, 0, i.then_branch.stmts.len() as int).0,
    );
    let (s3, b) = else_branch(q, e);
    lemma_else_later(q, e);
    let t = if_stmt_tail(s3, c, other, end, a->0, b->0);
    lemma_if_stmt_tail(s3, c, other, end, a->0, b->0);
    assert(later(s3, t)) by {
        lemma_if_tail_later(s3, c, other, end, a->0, b->0);
    }
    grows_value(s, &*i.cond);
    assert(s.statements.is_prefix_of(s1.statements)) by {
        reveal(grows);
    }
    lemma_if_code_behind(s, s1, t, c, other, end, (a->0).0, (b->0).0);
    lemma_chooses(s, s1, t, c, other, end, (a->0).0, (b->0).0);
    assert(is_block_code(p, &i.then_branch.stmts, (a->0).0));
    assert(is_else_code(q, i, (b->0).0));
}

proof fn lemma_if_tail_later<'a>(
    s: LowerState<'a>,
    c: u16,
    other: Label,
    end: Label,
    a: crate::lower_spec::Branch<'a>,
    b: crate::lower_spec::Branch<'a>,
)
    ensures
        later(s, if_stmt_tail(s, c, other, end, a, b)),
{
    reveal(if_stmt_tail);
    reveal(LowerState::aux);
    reveal(LowerState::live);
    reveal(LowerState::guard);
    reveal(LowerState::branch);
    reveal(LowerState::reject);
    reveal(LowerState::append);
    reveal(LowerState::jump);
    reveal(LowerState::label_def);
    reveal(LowerState::push);
}

// ── `if` with a value ────────────────────────────────────────────────

/// Whether the code is that of a block with a value in a state, and the value is in
/// the register of the binding.
pub open spec fn is_block_value_code<'a>(
    q: LowerState<'a>,
    stmts: &'a Vec<Stmt>,
    code: Seq<StmtView<'a>>,
    b: Binding,
) -> bool {
    branch_block_value(q, stmts).1 matches Some((branch, v)) && branch.0 == code && v == b
}

/// Whether the code is that of a branch with a value in a state, and the value is in
/// the register of the binding.
pub open spec fn is_value_code<'a>(
    q: LowerState<'a>,
    e: &'a Expr,
    code: Seq<StmtView<'a>>,
    b: Binding,
) -> bool {
    branch_value(q, e).1 matches Some((branch, v)) && branch.0 == code && v == b
}

/// Whether added code goes on with one of two codes behind its head, by a register,
/// and moves the value of the one that ran into a register.
pub open spec fn chooses_value<'a>(
    s: LowerState<'a>,
    head: LowerState<'a>,
    t: LowerState<'a>,
    c: u16,
    then_code: Seq<StmtView<'a>>,
    then_value: Binding,
    else_code: Seq<StmtView<'a>>,
    else_value: Binding,
    dst: u16,
) -> bool {
    &&& forall|w: World<'a>, m: Machine<'a>, x: Machine<'a>, n: Machine<'a>| #[trigger]
        ran(w, s, head, m, x) && x.word(c) != 0 && #[trigger] runs(w, then_code, x, n) ==> ran(
            w,
            s,
            t,
            m,
            n.with_word(dst, held(n, then_value)),
        )
    &&& forall|w: World<'a>, m: Machine<'a>, x: Machine<'a>, n: Machine<'a>| #[trigger]
        ran(w, s, head, m, x) && x.word(c) == 0 && #[trigger] runs(w, else_code, x, n) ==> ran(
            w,
            s,
            t,
            m,
            n.with_word(dst, held(n, else_value)),
        )
}

pub open spec fn move_stmt<'a>(dst: u16, src: u16) -> StmtView<'a> {
    Instr::Op(Op::MoveI(dst, src))
}

#[verifier::rlimit(40)]
proof fn lemma_if_value_tail<'a>(
    s: LowerState<'a>,
    c: u16,
    other: Label,
    end: Label,
    dst: u16,
    a: crate::lower_spec::Branch<'a>,
    x: u16,
    b: crate::lower_spec::Branch<'a>,
    y: u16,
)
    requires
        if_value_tail(s, c, other, end, dst, a, x, b, y).rejected is None,
    ensures
        s.rejected is None,
        dst <= 255,
        if_value_tail(s, c, other, end, dst, a, x, b, y).next_reg == s.next_reg,
        if_value_tail(s, c, other, end, dst, a, x, b, y).statements == if_code(
            tested(s.statements, other, end),
            c,
            other,
            a.0.push(move_stmt(dst, x)),
            end,
            b.0.push(move_stmt(dst, y)),
        ),
{
    reveal(if_value_tail);
    reveal(move_int);
    let s1 = s.aux(Op::NewLabel(other));
    let s2 = s1.aux(Op::NewLabel(end));
    let s3 = s2.live();
    let s4 = s3.guard(c, other);
    let s5 = s4.append(a);
    let s6 = move_int(s5, dst, x);
    let s7 = s6.jump(end);
    let s8 = s7.label_def(other);
    let s9 = s8.append(b);
    let s10 = move_int(s9, dst, y);
    let s11 = s10.label_def(end);
    lemma_label_def(s10, end);
    lemma_emitted_op(
        s9,
        OpKind::MoveI,
        seq![int_slot(y)],
        seq![int_slot(dst)],
        Op::MoveI(dst, y),
    );
    assert(seq![int_slot(dst)][0].reg <= 255);
    lemma_append(s8, b);
    lemma_label_def(s7, other);
    lemma_jump(s6, end);
    lemma_emitted_op(
        s5,
        OpKind::MoveI,
        seq![int_slot(x)],
        seq![int_slot(dst)],
        Op::MoveI(dst, x),
    );
    lemma_append(s4, a);
    lemma_guarded(s3, c, other);
    lemma_live(s2);
    lemma_aux(s1, Op::NewLabel(end));
    lemma_aux(s, Op::NewLabel(other));
    assert(s11.statements =~= if_code(
        tested(s.statements, other, end),
        c,
        other,
        a.0.push(move_stmt(dst, x)),
        end,
        b.0.push(move_stmt(dst, y)),
    ));
}

proof fn lemma_chooses_value<'a>(
    s: LowerState<'a>,
    head: LowerState<'a>,
    t: LowerState<'a>,
    c: u16,
    other: Label,
    end: Label,
    dst: u16,
    a: Seq<StmtView<'a>>,
    x: Binding,
    b: Seq<StmtView<'a>>,
    y: Binding,
)
    requires
        x.kind is Int,
        y.kind is Int,
        chooses(s, head, t, c, a.push(move_stmt(dst, x.reg)), b.push(move_stmt(dst, y.reg))),
    ensures
        chooses_value(s, head, t, c, a, x, b, y, dst),
{
    assert forall|w: World<'a>, m: Machine<'a>, p: Machine<'a>, n: Machine<'a>| #[trigger]
        ran(w, s, head, m, p) && p.word(c) != 0 && #[trigger] runs(w, a, p, n) implies ran(
        w,
        s,
        t,
        m,
        n.with_word(dst, held(n, x)),
    ) by {
        lemma_run_push(w, a, move_stmt(dst, x.reg), p, n);
        assert(runs(w, a.push(move_stmt(dst, x.reg)), p, n.with_word(dst, held(n, x))));
    }
    assert forall|w: World<'a>, m: Machine<'a>, p: Machine<'a>, n: Machine<'a>| #[trigger]
        ran(w, s, head, m, p) && p.word(c) == 0 && #[trigger] runs(w, b, p, n) implies ran(
        w,
        s,
        t,
        m,
        n.with_word(dst, held(n, y)),
    ) by {
        lemma_run_push(w, b, move_stmt(dst, y.reg), p, n);
        assert(runs(w, b.push(move_stmt(dst, y.reg)), p, n.with_word(dst, held(n, y))));
    }
}

proof fn lemma_if_value_form<'a>(s: LowerState<'a>, e: &'a Expr, i: ExprIf)
    requires
        e.kind == ExprKind::If(i),
        bool_if(s, e).1 is None,
        value(s, e).1 is Some,
    ensures
        ({
            let s0 = bool_if(s, e).0;
            let (s1, cond) = value(s0, &*i.cond);
            let s2 = s1.label_taken().label_taken();
            let (q, a) = branch_block_value(s2.reg_taken(), &i.then_branch.stmts);
            let (s4, b) = branch_value(q, &*i.else_branch->0);
            &&& cond is Some && cond->0.kind is Int
            &&& i.else_branch is Some
            &&& a is Some && (a->0).1.kind is Int
            &&& b is Some && (b->0).1.kind is Int
            &&& value(s, e).0 == if_value_tail(
                s4,
                cond->0.reg,
                s1.fresh_label(),
                s1.label_taken().fresh_label(),
                s2.next_reg,
                (a->0).0,
                (a->0).1.reg,
                (b->0).0,
                (b->0).1.reg,
            )
            &&& value(s, e).1->0.reg == s2.next_reg
            &&& value(s, e).1->0.kind is Int
        }),
{
    lemma_plain(s, e);
}

proof fn lemma_bool_if_start<'a>(s: LowerState<'a>, e: &'a Expr, i: ExprIf)
    requires
        e.kind == ExprKind::If(i),
        bool_if(s, e).1 is None,
    ensures
        crate::patterns::bool_branches(i) is None ==> bool_if(s, e).0 == s,
        crate::patterns::bool_branches(i) is Some ==> bool_if(s, e).0 == value(s, &*i.cond).0,
{
}

proof fn lemma_if_value_chosen<'a>(
    s0: LowerState<'a>,
    s1: LowerState<'a>,
    cond: Binding,
    stmts: &'a Vec<Stmt>,
    els: &'a Expr,
    t: LowerState<'a>,
)
    requires
        s0.statements.is_prefix_of(s1.statements),
        ({
            let s2 = s1.label_taken().label_taken();
            let (q, a) = branch_block_value(s2.reg_taken(), stmts);
            let (s4, b) = branch_value(q, els);
            &&& a is Some && (a->0).1.kind is Int
            &&& b is Some && (b->0).1.kind is Int
            &&& t.rejected is None
            &&& t == if_value_tail(
                s4,
                cond.reg,
                s1.fresh_label(),
                s1.label_taken().fresh_label(),
                s2.next_reg,
                (a->0).0,
                (a->0).1.reg,
                (b->0).0,
                (b->0).1.reg,
            )
        }),
    ensures
        ({
            let s2 = s1.label_taken().label_taken();
            let p = s2.reg_taken();
            let (q, a) = branch_block_value(p, stmts);
            let (_, b) = branch_value(q, els);
            let dst = s2.next_reg;
            &&& s1.next_reg <= dst < t.next_reg
            &&& later(s1, p) && later(s1, q) && p.next_reg > dst && q.next_reg > dst
            &&& is_block_value_code(p, stmts, ((a->0).0).0, (a->0).1)
            &&& is_value_code(q, els, ((b->0).0).0, (b->0).1)
            &&& chooses_value(
                s0,
                s1,
                t,
                cond.reg,
                ((a->0).0).0,
                (a->0).1,
                ((b->0).0).0,
                (b->0).1,
                dst,
            )
        }),
{
    let c = cond.reg;
    let other = s1.fresh_label();
    let end = s1.label_taken().fresh_label();
    let s2 = s1.label_taken().label_taken();
    let dst = s2.next_reg;
    let p = s2.reg_taken();
    lemma_taken(s1);
    lemma_taken(s1.label_taken());
    lemma_taken(s2);
    let (q, a) = branch_block_value(p, stmts);
    lemma_joined_later(p, crate::lower_spec::block_value(p.nested(), stmts).0);
    let (s4, b) = branch_value(q, els);
    lemma_joined_later(q, crate::lower_spec::scoped_value(q.nested(), els).0);
    let (aseq, av) = a->0;
    let (bseq, bv) = b->0;
    lemma_if_value_tail(s4, c, other, end, dst, aseq, av.reg, bseq, bv.reg);
    let a2 = aseq.0.push(move_stmt(dst, av.reg));
    let b2 = bseq.0.push(move_stmt(dst, bv.reg));
    lemma_if_code_behind(s0, s1, t, c, other, end, a2, b2);
    lemma_chooses(s0, s1, t, c, other, end, a2, b2);
    lemma_chooses_value(s0, s1, t, c, other, end, dst, aseq.0, av, bseq.0, bv);
}

/// When the code of an `if` with a value runs, the branch of its condition runs and
/// the other one does not, and the register handed back, which is a fresh one, holds
/// the value of the branch that ran. (Where both branches are constants other than 0
/// and 1, the condition is computed twice.)
pub proof fn law_if_has_the_value_of_the_chosen_branch<'a>(
    s: LowerState<'a>,
    e: &'a Expr,
    i: ExprIf,
)
    requires
        e.kind == ExprKind::If(i),
        bool_if(s, e).1 is None,
        value(s, e).1 is Some,
        value(s, e).0.rejected is None,
    ensures
        ({
            let s0 = bool_if(s, e).0;
            let (s1, cond) = value(s0, &*i.cond);
            let (t, out) = value(s, e);
            &&& crate::patterns::bool_branches(i) is None ==> s0 == s
            &&& crate::patterns::bool_branches(i) is Some ==> s0 == value(s, &*i.cond).0
            &&& cond is Some && cond->0.kind is Int && out->0.kind is Int
            &&& i.else_branch is Some
            &&& s1.next_reg <= out->0.reg < t.next_reg
            &&& exists|
                p: LowerState<'a>,
                then_code: Seq<StmtView<'a>>,
                then_value: Binding,
                q: LowerState<'a>,
                else_code: Seq<StmtView<'a>>,
                else_value: Binding,
            |
                #![trigger is_block_value_code(p, &i.then_branch.stmts, then_code, then_value), is_value_code(q, &*i.else_branch->0, else_code, else_value)]
                later(s1, p) && later(s1, q) && p.next_reg > out->0.reg && q.next_reg > out->0.reg
                    && is_block_value_code(p, &i.then_branch.stmts, then_code, then_value)
                    && is_value_code(q, &*i.else_branch->0, else_code, else_value)
                    && chooses_value(
                    s0,
                    s1,
                    t,
                    cond->0.reg,
                    then_code,
                    then_value,
                    else_code,
                    else_value,
                    out->0.reg,
                )
        }),
{
    lemma_if_value_form(s, e, i);
    lemma_bool_if_start(s, e, i);
    let s0 = bool_if(s, e).0;
    let (s1, cond) = value(s0, &*i.cond);
    grows_value(s0, &*i.cond);
    assert(s0.statements.is_prefix_of(s1.statements)) by {
        reveal(grows);
    }
    lemma_if_value_chosen(
        s0,
        s1,
        cond->0,
        &i.then_branch.stmts,
        &*i.else_branch->0,
        value(s, e).0,
    );
}

// ── Loops ────────────────────────────────────────────────────────────

/// Whether a loop body goes on to the next round: it runs to its end, or leaves for
/// the label of `continue`.
pub open spec fn goes_on<'a>(
    w: World<'a>,
    body: Seq<StmtView<'a>>,
    again: Label,
    m: Machine<'a>,
    n: Machine<'a>,
) -> bool {
    runs(w, body, m, n) || leaves(w, body, m, n, again)
}

/// What `while` does, with at most `k` rounds after the first one. Each round
/// computes the condition. Where it is 0 the loop is over; elsewhere the body runs:
/// where it leaves for the label of `break` the loop is over, and where it goes on
/// there is another round.
pub open spec fn whiles<'a>(
    w: World<'a>,
    cond: Seq<StmtView<'a>>,
    c: u16,
    body: Seq<StmtView<'a>>,
    over: Label,
    again: Label,
    k: nat,
    m: Machine<'a>,
    n: Machine<'a>,
) -> bool
    decreases k,
{
    exists|x: Machine<'a>| #[trigger]
        runs(w, cond, m, x) && if x.word(c) == 0 {
            n == x
        } else {
            leaves(w, body, x, n, over) || (k > 0 && exists|y: Machine<'a>| #[trigger]
                goes_on(w, body, again, x, y) && whiles(
                    w,
                    cond,
                    c,
                    body,
                    over,
                    again,
                    (k - 1) as nat,
                    y,
                    n,
                ))
        }
}

/// What `loop` does, with at most `k` rounds after the first one.
pub open spec fn loops<'a>(
    w: World<'a>,
    body: Seq<StmtView<'a>>,
    over: Label,
    again: Label,
    k: nat,
    m: Machine<'a>,
    n: Machine<'a>,
) -> bool
    decreases k,
{
    leaves(w, body, m, n, over) || (k > 0 && exists|y: Machine<'a>| #[trigger]
        goes_on(w, body, again, m, y) && loops(w, body, over, again, (k - 1) as nat, y, n))
}

/// The code of a loop: `test` stands in front of the body.
pub open spec fn round_code<'a>(
    again: Label,
    over: Label,
    test: Seq<StmtView<'a>>,
    body: Seq<StmtView<'a>>,
) -> Seq<StmtView<'a>> {
    (seq![Instr::Op(Op::NewLabel(again)), Instr::Op(Op::NewLabel(over)), mark(again)] + test
        + body).push(jump_to(again)).push(mark(over))
}

proof fn lemma_round_parts<'a>(
    again: Label,
    over: Label,
    test: Seq<StmtView<'a>>,
    body: Seq<StmtView<'a>>,
)
    ensures
        ({
            let code = round_code(again, over, test, body);
            let p: int = 3;
            let q = p + test.len();
            let z = q + body.len();
            &&& code.len() == z + 2
            &&& code[0] == Instr::Op::<Seq<crate::kinds::Register>, Seq<(u16, u16)>, Seq<u8>>(
                Op::NewLabel(again),
            )
            &&& code[1] == Instr::Op::<Seq<crate::kinds::Register>, Seq<(u16, u16)>, Seq<u8>>(
                Op::NewLabel(over),
            )
            &&& marked(code, 2, again)
            &&& part_of(code, p, test)
            &&& part_of(code, q, body)
            &&& code[z] == jump_to::<'a>(again)
            &&& marked(code, z + 1, over)
        }),
{
}

/// From the body's start: where the body leaves for the label of `break`, control
/// comes behind the code; where it goes on, control comes to the start of a round.
proof fn lemma_round_body<'a>(
    w: World<'a>,
    again: Label,
    over: Label,
    test: Seq<StmtView<'a>>,
    body: Seq<StmtView<'a>>,
    m: Machine<'a>,
    n: Machine<'a>,
)
    ensures
        ({
            let code = round_code(again, over, test, body);
            let q = 3 + test.len();
            &&& leaves(w, body, m, n, over) ==> gets(w, code, m, q as int, n, code.len() as int)
            &&& goes_on(w, body, again, m, n) ==> gets(w, code, m, q as int, n, 3)
        }),
{
    lemma_round_parts(again, over, test, body);
    let code = round_code(again, over, test, body);
    let q: int = 3 + test.len() as int;
    let z = q + body.len();
    if leaves(w, body, m, n, over) {
        let pc = choose|pc: int| #[trigger]
            gets(w, body, m, 0, n, pc) && 0 <= pc < body.len() && control(body[pc], n)
                == Control::Goes(over);
        lemma_inside(w, code, q, body, m, 0, n, pc);
        assert(body[pc] == code[q + pc]);
        assert(step(w, code, n, q + pc, n, z + 1));
        lemma_step_gets(w, code, n, q + pc, n, z + 1);
        assert(step(w, code, n, z + 1, n, z + 2));
        lemma_step_gets(w, code, n, z + 1, n, z + 2);
        lemma_then(w, code, m, q, n, q + pc, n, z + 1);
        lemma_then(w, code, m, q, n, z + 1, n, z + 2);
    }
    if goes_on(w, body, again, m, n) {
        assert(step(w, code, n, 2, n, 3));
        lemma_step_gets(w, code, n, 2, n, 3);
        if runs(w, body, m, n) {
            lemma_inside(w, code, q, body, m, 0, n, body.len() as int);
            assert(step(w, code, n, z, n, 2));
            lemma_step_gets(w, code, n, z, n, 2);
            lemma_then(w, code, m, q, n, z, n, 2);
        } else {
            let pc = choose|pc: int| #[trigger]
                gets(w, body, m, 0, n, pc) && 0 <= pc < body.len() && control(body[pc], n)
                    == Control::Goes(again);
            lemma_inside(w, code, q, body, m, 0, n, pc);
            assert(body[pc] == code[q + pc]);
            assert(step(w, code, n, q + pc, n, 2));
            lemma_step_gets(w, code, n, q + pc, n, 2);
            lemma_then(w, code, m, q, n, q + pc, n, 2);
        }
        lemma_then(w, code, m, q, n, 2, n, 3);
    }
}

pub open spec fn while_test<'a>(cond: Seq<StmtView<'a>>, c: u16, over: Label) -> Seq<StmtView<'a>> {
    cond.push(Instr::Op(Op::LivePlaceholder)).push(test_stmt(c, over))
}

proof fn lemma_while_rounds<'a>(
    w: World<'a>,
    cond: Seq<StmtView<'a>>,
    c: u16,
    body: Seq<StmtView<'a>>,
    over: Label,
    again: Label,
    k: nat,
    m: Machine<'a>,
    n: Machine<'a>,
)
    requires
        whiles(w, cond, c, body, over, again, k, m, n),
    ensures
        ({
            let code = round_code(again, over, while_test(cond, c, over), body);
            gets(w, code, m, 3, n, code.len() as int)
        }),
    decreases k,
{
    let head = while_test(cond, c, over);
    let code = round_code(again, over, head, body);
    lemma_round_parts(again, over, head, body);
    let x = choose|x: Machine<'a>| #[trigger]
        runs(w, cond, m, x) && if x.word(c) == 0 {
            n == x
        } else {
            leaves(w, body, x, n, over) || (k > 0 && exists|y: Machine<'a>| #[trigger]
                goes_on(w, body, again, x, y) && whiles(
                    w,
                    cond,
                    c,
                    body,
                    over,
                    again,
                    (k - 1) as nat,
                    y,
                    n,
                ))
        };
    let q: int = 3 + head.len() as int;
    let z = q + body.len();
    assert forall|j: int| 0 <= j < cond.len() implies #[trigger] cond[j] == code[3 + j] by {
        assert(head[j] == cond[j]);
    }
    assert(part_of(code, 3, cond));
    lemma_inside(w, code, 3, cond, m, 0, x, cond.len() as int);
    let g: int = 3 + cond.len() as int;
    assert(code[g] == head[cond.len() as int]);
    assert(code[g + 1] == head[cond.len() as int + 1]);
    assert(step(w, code, x, g, x, g + 1));
    lemma_step_gets(w, code, x, g, x, g + 1);
    lemma_then(w, code, m, 3, x, g, x, g + 1);
    if x.word(c) == 0 {
        assert(step(w, code, x, g + 1, x, z + 1));
        lemma_step_gets(w, code, x, g + 1, x, z + 1);
        assert(step(w, code, x, z + 1, x, z + 2));
        lemma_step_gets(w, code, x, z + 1, x, z + 2);
        lemma_then(w, code, m, 3, x, g + 1, x, z + 1);
        lemma_then(w, code, m, 3, x, z + 1, x, z + 2);
    } else {
        assert(step(w, code, x, g + 1, x, q));
        lemma_step_gets(w, code, x, g + 1, x, q);
        lemma_then(w, code, m, 3, x, g + 1, x, q);
        if leaves(w, body, x, n, over) {
            lemma_round_body(w, again, over, head, body, x, n);
            lemma_then(w, code, m, 3, x, q, n, code.len() as int);
        } else {
            let y = choose|y: Machine<'a>| #[trigger]
                goes_on(w, body, again, x, y) && whiles(
                    w,
                    cond,
                    c,
                    body,
                    over,
                    again,
                    (k - 1) as nat,
                    y,
                    n,
                );
            lemma_round_body(w, again, over, head, body, x, y);
            lemma_while_rounds(w, cond, c, body, over, again, (k - 1) as nat, y, n);
            lemma_then(w, code, m, 3, x, q, y, 3);
            lemma_then(w, code, m, 3, y, 3, n, code.len() as int);
        }
    }
}

proof fn lemma_loop_rounds<'a>(
    w: World<'a>,
    body: Seq<StmtView<'a>>,
    over: Label,
    again: Label,
    k: nat,
    m: Machine<'a>,
    n: Machine<'a>,
)
    requires
        loops(w, body, over, again, k, m, n),
    ensures
        ({
            let code = round_code(again, over, seq![], body);
            gets(w, code, m, 3, n, code.len() as int)
        }),
    decreases k,
{
    let code = round_code(again, over, seq![], body);
    if leaves(w, body, m, n, over) {
        lemma_round_body(w, again, over, seq![], body, m, n);
    } else {
        let y = choose|y: Machine<'a>| #[trigger]
            goes_on(w, body, again, m, y) && loops(w, body, over, again, (k - 1) as nat, y, n);
        lemma_round_body(w, again, over, seq![], body, m, y);
        lemma_loop_rounds(w, body, over, again, (k - 1) as nat, y, n);
        lemma_then(w, code, m, 3, y, 3, n, code.len() as int);
    }
}

/// The labels in front of the rounds do nothing.
proof fn lemma_rounds_start<'a>(
    w: World<'a>,
    again: Label,
    over: Label,
    test: Seq<StmtView<'a>>,
    body: Seq<StmtView<'a>>,
    m: Machine<'a>,
    n: Machine<'a>,
)
    requires
        ({
            let code = round_code(again, over, test, body);
            gets(w, code, m, 3, n, code.len() as int)
        }),
    ensures
        runs(w, round_code(again, over, test, body), m, n),
{
    lemma_round_parts(again, over, test, body);
    let code = round_code(again, over, test, body);
    assert(step(w, code, m, 2, m, 3));
    lemma_first(w, code, m, 2, m, 3, n, code.len() as int);
    assert(step(w, code, m, 1, m, 2));
    lemma_first(w, code, m, 1, m, 2, n, code.len() as int);
    assert(step(w, code, m, 0, m, 1));
    lemma_first(w, code, m, 0, m, 1, n, code.len() as int);
}

/// Whether the code is that of a loop body in a state, with the labels that `break`
/// and `continue` go to.
pub open spec fn is_loop_code<'a>(
    q: LowerState<'a>,
    stmts: &'a Vec<Stmt>,
    over: Label,
    again: Label,
    code: Seq<StmtView<'a>>,
) -> bool {
    loop_body(q, stmts, over, again).1 matches Some(b) && b.0 == code
}

/// When the code of a `while` loop runs, it does what `while` does with the code of
/// its condition and that of its body: it is over where the condition is 0, runs the
/// body and starts again where it is not, and `break` and `continue` end the loop and
/// start it again.
pub proof fn law_while_runs_its_body_while_its_condition_holds<'a>(
    s: LowerState<'a>,
    e: &'a Expr,
    l: ExprWhile,
)
    requires
        e.kind == ExprKind::While(l),
        expr_stmt(s, e).1,
        expr_stmt(s, e).0.rejected is None,
    ensures
        ({
            let t = expr_stmt(s, e).0;
            exists|
                p: LowerState<'a>,
                q: LowerState<'a>,
                over: Label,
                again: Label,
                body: Seq<StmtView<'a>>,
            |
                #![trigger value(p, &*l.cond), is_loop_code(q, &l.body.stmts, over, again, body)]
                {
                    let (p1, cond) = value(p, &*l.cond);
                    &&& later(s, p)
                    &&& cond is Some
                    &&& later(p1, q)
                    &&& t.next_label < u16::MAX ==> over != again
                    &&& is_loop_code(q, &l.body.stmts, over, again, body)
                    &&& forall|w: World<'a>, k: nat, m: Machine<'a>, n: Machine<'a>| #[trigger]
                        whiles(w, added(p, p1), cond->0.reg, body, over, again, k, m, n) ==> ran(
                            w,
                            s,
                            t,
                            m,
                            n,
                        )
                }
        }),
{
    lemma_control_form(s, e);
    let again = s.fresh_label();
    let over = s.label_taken().fresh_label();
    let a = s.label_taken().label_taken();
    let b = a.aux(Op::NewLabel(again));
    let c = b.aux(Op::NewLabel(over));
    let p = c.label_def(again);
    let (p1, cond) = value(p, &*l.cond);
    let reg = cond->0.reg;
    let d = p1.live();
    let q = d.guard(reg, over);
    let (x, body) = loop_body(q, &l.body.stmts, over, again);
    let y = x.append(body->0);
    let z = y.jump(again);
    let t = z.label_def(over);
    lemma_label_def(z, over);
    lemma_jump(y, again);
    lemma_append(x, body->0);
    let inner = loop_stmts(q.nested(), &l.body.stmts, 0, over, again).0;
    lemma_joined_later(q, inner);
    grows_loop_body(q, &l.body.stmts, over, again);
    lemma_not_rejected(q, x);
    lemma_guarded(d, reg, over);
    lemma_live(p1);
    grows_value(p, &*l.cond);
    lemma_not_rejected(p, p1);
    lemma_label_def(c, again);
    lemma_aux(b, Op::NewLabel(over));
    lemma_aux(a, Op::NewLabel(again));
    lemma_taken(s);
    lemma_taken(s.label_taken());
    let head = while_test(added(p, p1), reg, over);
    let code = (body->0).0;
    assert(added(s, t) =~= round_code(again, over, head, code)) by {
        assert(p1.statements =~= p.statements + added(p, p1));
    }
    assert(s.statements.is_prefix_of(t.statements)) by {
        assert forall|i: int| 0 <= i < s.statements.len() implies s.statements[i]
            == t.statements[i] by {
            assert(p.statements[i] == p1.statements[i]);
        }
    }
    assert(is_loop_code(q, &l.body.stmts, over, again, code));
    assert forall|w: World<'a>, k: nat, m: Machine<'a>, n: Machine<'a>| #[trigger]
        whiles(w, added(p, p1), reg, code, over, again, k, m, n) implies ran(w, s, t, m, n) by {
        reveal(ran);
        lemma_while_rounds(w, added(p, p1), reg, code, over, again, k, m, n);
        lemma_rounds_start(w, again, over, head, code, m, n);
    }
}

/// When the code of a `loop` runs, it runs the code of its body again and again until
/// `break` ends it.
pub proof fn law_loop_runs_its_body_until_a_break<'a>(s: LowerState<'a>, e: &'a Expr, l: Block)
    requires
        e.kind == ExprKind::Loop(l),
        expr_stmt(s, e).1,
        expr_stmt(s, e).0.rejected is None,
    ensures
        ({
            let t = expr_stmt(s, e).0;
            exists|q: LowerState<'a>, over: Label, again: Label, body: Seq<StmtView<'a>>| #[trigger]
                is_loop_code(q, &l.stmts, over, again, body) && later(s, q) && (t.next_label
                    < u16::MAX ==> over != again) && forall|
                    w: World<'a>,
                    k: nat,
                    m: Machine<'a>,
                    n: Machine<'a>,
                | #[trigger]
                    loops(w, body, over, again, k, m, n) ==> ran(w, s, t, m, n)
        }),
{
    lemma_control_form(s, e);
    let again = s.fresh_label();
    let over = s.label_taken().fresh_label();
    let a = s.label_taken().label_taken();
    let b = a.aux(Op::NewLabel(again));
    let c = b.aux(Op::NewLabel(over));
    let q = c.label_def(again);
    let (x, body) = loop_body(q, &l.stmts, over, again);
    let y = x.append(body->0);
    let z = y.jump(again);
    let t = z.label_def(over);
    lemma_label_def(z, over);
    lemma_jump(y, again);
    lemma_append(x, body->0);
    let inner = loop_stmts(q.nested(), &l.stmts, 0, over, again).0;
    lemma_joined_later(q, inner);
    grows_loop_body(q, &l.stmts, over, again);
    lemma_not_rejected(q, x);
    lemma_label_def(c, again);
    lemma_aux(b, Op::NewLabel(over));
    lemma_aux(a, Op::NewLabel(again));
    lemma_taken(s);
    lemma_taken(s.label_taken());
    let code = (body->0).0;
    assert(added(s, t) =~= round_code(again, over, seq![], code));
    assert(s.statements.is_prefix_of(t.statements));
    assert(is_loop_code(q, &l.stmts, over, again, code));
    assert forall|w: World<'a>, k: nat, m: Machine<'a>, n: Machine<'a>| #[trigger]
        loops(w, code, over, again, k, m, n) implies ran(w, s, t, m, n) by {
        reveal(ran);
        lemma_loop_rounds(w, code, over, again, k, m, n);
        lemma_rounds_start(w, again, over, seq![], code, m, n);
    }
}

} // verus!
