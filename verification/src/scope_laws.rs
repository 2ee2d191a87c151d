//! Branches by themselves, blocks with a value, and `if` in loop bodies.

use vstd::prelude::*;

use crate::ast::{Expr, ExprCall, ExprIf, ExprKind, ExprMethodCall, path_ends_with, Stmt};
use crate::branch_laws::{
    chooses, if_code, is_block_code, is_block_value_code, is_loop_code, is_value_code, jump_to,
    lemma_chooses, lemma_if_code_behind, lemma_joined_later, test_stmt, tested,
};
use crate::call_laws::{
    are_values, before_arg, law_call_passes_its_arguments, law_stand_in_gets_the_value,
    law_the_receiver_is_the_first_argument, passed,
};
use crate::calls::emit_call;
use crate::code_runs::{
    added, later, lemma_append, lemma_aux, lemma_guarded, lemma_jump, lemma_label_def, lemma_live,
    lemma_not_rejected, lemma_ran_both, lemma_ran_none, lemma_ran_op, lemma_ran_same, lemma_taken,
    ran,
};
use crate::growth::{grows, mark};
use crate::growth_forms::{grows_loop_body, grows_value};
use crate::kinds::{Binding, BindingKind};
use crate::lower_spec::{
    block_value, Branch, call_args, expr_or_skip, expr_stmt, io_call_stmt, io_shim, loop_body,
    loop_if, loop_stmts, lower_stmt, lower_stmts, method_policy, method_value, receiver_type,
    referent_value, scoped_value, shim_call, value,
};
use crate::lowerer::LowerState;
use crate::machine::{Callee, Event, Machine, runs, World};
use crate::ops::{CallTarget, Label, Op, OpKind, StmtView};
use crate::policy::policy_shape;

verus! {

// ── Branches by themselves ───────────────────────────────────────────

/// Where a branch is lowered, names stand for what they stand for outside, and no code
/// is there yet.
pub proof fn law_branch_starts_with_the_names_outside<'a>(q: LowerState<'a>)
    ensures
        later(q, q.nested()),
        q.nested().next_reg == q.next_reg,
        q.nested().statements.len() == 0,
        q.nested().rejected == q.rejected,
{
    reveal(LowerState::nested);
}

/// The code of a block in statement position is what its statements add.
pub proof fn law_block_code_is_the_code_of_its_statements<'a>(
    w: World<'a>,
    q: LowerState<'a>,
    stmts: &'a Vec<Stmt>,
    code: Seq<StmtView<'a>>,
    m: Machine<'a>,
    n: Machine<'a>,
)
    requires
        is_block_code(q, stmts, code),
    ensures
        lower_stmts(q.nested(), stmts, 0, stmts.len() as int).1,
        runs(w, code, m, n) == ran(
            w,
            q.nested(),
            lower_stmts(q.nested(), stmts, 0, stmts.len() as int).0,
            m,
            n,
        ),
{
    reveal(LowerState::nested);
    reveal(ran);
    let t = lower_stmts(q.nested(), stmts, 0, stmts.len() as int).0;
    assert(added(q.nested(), t) =~= code);
}

/// The code of a loop body is what its statements add.
pub proof fn law_loop_code_is_the_code_of_its_statements<'a>(
    w: World<'a>,
    q: LowerState<'a>,
    stmts: &'a Vec<Stmt>,
    over: Label,
    again: Label,
    code: Seq<StmtView<'a>>,
    m: Machine<'a>,
    n: Machine<'a>,
)
    requires
        is_loop_code(q, stmts, over, again, code),
    ensures
        ({
            let (t, done) = loop_stmts(q.nested(), stmts, 0, over, again);
            &&& done
            &&& added(q.nested(), t) == code
            &&& runs(w, code, m, n) == ran(w, q.nested(), t, m, n)
        }),
{
    reveal(LowerState::nested);
    reveal(ran);
    let t = loop_stmts(q.nested(), stmts, 0, over, again).0;
    assert(added(q.nested(), t) =~= code);
}

/// The code of a branch with a value is what the branch adds, and the value is that of
/// the branch: for a block, of the block.
pub proof fn law_value_code_is_the_code_of_its_branch<'a>(
    w: World<'a>,
    q: LowerState<'a>,
    e: &'a Expr,
    code: Seq<StmtView<'a>>,
    b: Binding,
    m: Machine<'a>,
    n: Machine<'a>,
)
    requires
        is_value_code(q, e, code, b),
    ensures
        ({
            let (t, r) = match e.kind {
                ExprKind::Block(block) => block_value(q.nested(), &block.stmts),
                _ => value(q.nested(), e),
            };
            r == Some(b) && runs(w, code, m, n) == ran(w, q.nested(), t, m, n)
        }),
{
    reveal(LowerState::nested);
    reveal(ran);
    let t = scoped_value(q.nested(), e).0;
    assert(added(q.nested(), t) =~= code);
}

/// The same of a block with a value.
pub proof fn law_block_value_code_is_the_code_of_its_block<'a>(
    w: World<'a>,
    q: LowerState<'a>,
    stmts: &'a Vec<Stmt>,
    code: Seq<StmtView<'a>>,
    b: Binding,
    m: Machine<'a>,
    n: Machine<'a>,
)
    requires
        is_block_value_code(q, stmts, code, b),
    ensures
        block_value(q.nested(), stmts).1 == Some(b),
        runs(w, code, m, n) == ran(w, q.nested(), block_value(q.nested(), stmts).0, m, n),
{
    reveal(LowerState::nested);
    reveal(ran);
    let t = block_value(q.nested(), stmts).0;
    assert(added(q.nested(), t) =~= code);
}

/// A block with a value runs its statements but for the last one in order, then
/// computes its last expression, and has that value.
pub proof fn law_block_has_the_value_of_its_last_expression<'a>(
    w: World<'a>,
    s: LowerState<'a>,
    stmts: &'a Vec<Stmt>,
    m: Machine<'a>,
    x: Machine<'a>,
    n: Machine<'a>,
)
    requires
        block_value(s, stmts).1 is Some,
    ensures
        stmts.len() > 0,
        stmts[stmts.len() - 1] is Expr,
        ({
            let s1 = lower_stmts(s, stmts, 0, stmts.len() - 1).0;
            let e = stmts[stmts.len() - 1]->Expr_0;
            let (t, r) = value(s1, &e);
            &&& lower_stmts(s, stmts, 0, stmts.len() - 1).1
            &&& !stmts[stmts.len() - 1]->Expr_1
            &&& block_value(s, stmts) == (t, r)
            &&& ran(w, s, s1, m, x) && ran(w, s1, t, x, n) ==> ran(w, s, t, m, n)
        }),
{
    let s1 = lower_stmts(s, stmts, 0, stmts.len() - 1).0;
    match stmts[stmts.len() - 1] {
        Stmt::Expr(e, semi) => {
            let t = value(s1, &e).0;
            if ran(w, s, s1, m, x) && ran(w, s1, t, x, n) {
                lemma_ran_both(w, s, s1, t, m, x, n);
            }
        },
        _ => {},
    }
}

/// A statement that is an expression does what the expression does in statement
/// position, where that can be lowered.
pub proof fn law_expression_statement_does_its_expression<'a>(
    s: LowerState<'a>,
    stmt: &'a Stmt,
    e: Expr,
    semi: bool,
)
    requires
        *stmt == Stmt::Expr(e, semi),
        expr_stmt(s, &e).1,
    ensures
        lower_stmt(s, stmt) == expr_stmt(s, &e),
{
    assert(expr_or_skip(s, &e) == expr_stmt(s, &e));
}

/// In the body of a dispatch arm, `can_enter_jit!` is a loop header.
pub proof fn law_entry_hint_is_a_loop_header<'a>(
    w: World<'a>,
    s: LowerState<'a>,
    stmt: &'a Stmt,
    path: crate::ast::Path,
    m: Machine<'a>,
)
    requires
        *stmt == Stmt::Macro(path),
        s.ctx.in_dispatch_arm_body,
        path_ends_with(path, "can_enter_jit"@),
        lower_stmt(s, stmt).0.rejected is None,
    ensures
        lower_stmt(s, stmt).1,
        ran(w, s, lower_stmt(s, stmt).0, m, m.does(Event::LoopHeader)),
{
    lemma_ran_none(w, s, s, m);
    lemma_ran_op(w, s, s, OpKind::LoopHeader, seq![], seq![], Op::LoopHeader, m, m);
}

// ── `if` in loop bodies ──────────────────────────────────────────────

/// Whether the code is that of the `else` branch of an `if` in a loop body; without
/// one, it is empty.
pub open spec fn is_loop_else<'a>(
    q: LowerState<'a>,
    i: ExprIf,
    over: Label,
    again: Label,
    code: Seq<StmtView<'a>>,
) -> bool {
    match i.else_branch {
        Some(x) => x.kind matches ExprKind::Block(b) && is_loop_code(q, &b.stmts, over, again, code),
        None => code.len() == 0,
    }
}

/// The code up to the `else` branch.
pub open spec fn loop_if_middle<'a>(
    i: ExprIf,
    s1: LowerState<'a>,
    c: u16,
    over: Label,
    again: Label,
) -> (LowerState<'a>, Option<Branch<'a>>, LowerState<'a>) {
    let other = s1.fresh_label();
    let end = s1.label_taken().fresh_label();
    let p = s1.label_taken().label_taken().aux(Op::NewLabel(other)).aux(Op::NewLabel(end)).live().guard(
        c,
        other,
    );
    let (s3, a) = loop_body(p, &i.then_branch.stmts, over, again);
    (p, a, s3.append(a->0).jump(end).label_def(other))
}

proof fn lemma_loop_if_form<'a>(s: LowerState<'a>, e: &'a Expr, i: ExprIf, over: Label, again: Label)
    requires
        e.kind == ExprKind::If(i),
        loop_if(s, e, over, again).1,
    ensures
        ({
            let (s1, cond) = value(s, &*i.cond);
            let end = s1.label_taken().fresh_label();
            let (p, a, s4) = loop_if_middle(i, s1, cond->0.reg, over, again);
            &&& cond is Some
            &&& a is Some
            &&& match i.else_branch {
                None => loop_if(s, e, over, again).0 == s4.label_def(end),
                Some(x) => match x.kind {
                    ExprKind::Block(b) => {
                        let (s5, f) = loop_body(s4, &b.stmts, over, again);
                        f is Some && loop_if(s, e, over, again).0 == s5.append(f->0).label_def(end)
                    },
                    _ => false,
                },
            }
        }),
{
}

proof fn lemma_loop_if_middle<'a>(
    i: ExprIf,
    s1: LowerState<'a>,
    c: u16,
    over: Label,
    again: Label,
)
    requires
        loop_if_middle(i, s1, c, over, again).1 is Some,
        loop_if_middle(i, s1, c, over, again).2.rejected is None,
    ensures
        ({
            let (p, a, s4) = loop_if_middle(i, s1, c, over, again);
            let other = s1.fresh_label();
            let end = s1.label_taken().fresh_label();
            &&& later(s1, p)
            &&& later(s1, s4)
            &&& is_loop_code(p, &i.then_branch.stmts, over, again, (a->0).0)
            &&& s4.statements == (tested(s1.statements, other, end).push(test_stmt(c, other))
                + (a->0).0).push(jump_to(end)).push(mark(other))
        }),
{
    let other = s1.fresh_label();
    let end = s1.label_taken().fresh_label();
    let b = s1.label_taken().label_taken();
    let d = b.aux(Op::NewLabel(other));
    let f = d.aux(Op::NewLabel(end));
    let g = f.live();
    let p = g.guard(c, other);
    let (s3, a) = loop_body(p, &i.then_branch.stmts, over, again);
    let x = s3.append(a->0);
    let y = x.jump(end);
    let s4 = y.label_def(other);
    lemma_label_def(y, other);
    lemma_jump(x, end);
    lemma_append(s3, a->0);
    lemma_joined_later(p, loop_stmts(p.nested(), &i.then_branch.stmts, 0, over, again).0);
    grows_loop_body(p, &i.then_branch.stmts, over, again);
    lemma_not_rejected(p, s3);
    lemma_guarded(g, c, other);
    lemma_live(f);
    lemma_aux(d, Op::NewLabel(end));
    lemma_aux(b, Op::NewLabel(other));
    lemma_taken(s1);
    lemma_taken(s1.label_taken());
    assert(p.statements == tested(s1.statements, other, end).push(test_stmt(c, other)));
}

/// When the code of an `if` with loop control in a loop body runs, its condition runs
/// first. Where it is not 0, the code of the then block runs and that of the `else`
/// block does not; where it is 0, the other way round. Where the code that runs leaves
/// the loop body by `break` or `continue`, so does the `if`; otherwise control is then
/// behind its code.
pub proof fn law_if_in_a_loop_runs_the_branch_of_its_condition<'a>(
    s: LowerState<'a>,
    e: &'a Expr,
    i: ExprIf,
    over: Label,
    again: Label,
)
    requires
        e.kind == ExprKind::If(i),
        loop_if(s, e, over, again).1,
        loop_if(s, e, over, again).0.rejected is None,
    ensures
        ({
            let (s1, cond) = value(s, &*i.cond);
            let t = loop_if(s, e, over, again).0;
            &&& cond is Some
            &&& later(s1, t)
            &&& exists|
                p: LowerState<'a>,
                then_code: Seq<StmtView<'a>>,
                q: LowerState<'a>,
                else_code: Seq<StmtView<'a>>,
            |
                #![trigger is_loop_code(p, &i.then_branch.stmts, over, again, then_code), is_loop_else(q, i, over, again, else_code)]
                later(s1, p) && later(s1, q) && is_loop_code(
                    p,
                    &i.then_branch.stmts,
                    over,
                    again,
                    then_code,
                ) && is_loop_else(q, i, over, again, else_code) && chooses(
                    s,
                    s1,
                    t,
                    cond->0.reg,
                    then_code,
                    else_code,
                )
        }),
{
    lemma_loop_if_form(s, e, i, over, again);
    let (s1, cond) = value(s, &*i.cond);
    let c = cond->0.reg;
    let other = s1.fresh_label();
    let end = s1.label_taken().fresh_label();
    let (p, a, s4) = loop_if_middle(i, s1, c, over, again);
    let t = loop_if(s, e, over, again).0;
    let empty: Seq<StmtView<'a>> = seq![];
    let code = match i.else_branch {
        None => empty,
        Some(x) => match x.kind {
            ExprKind::Block(b) => (loop_body(s4, &b.stmts, over, again).1->0).0,
            _ => empty,
        },
    };
    match i.else_branch {
        None => {
            lemma_label_def(s4, end);
        },
        Some(x) => match x.kind {
            ExprKind::Block(b) => {
                let (s5, f) = loop_body(s4, &b.stmts, over, again);
                let y = s5.append(f->0);
                lemma_label_def(y, end);
                lemma_append(s5, f->0);
                lemma_joined_later(s4, loop_stmts(s4.nested(), &b.stmts, 0, over, again).0);
                grows_loop_body(s4, &b.stmts, over, again);
                lemma_not_rejected(s4, s5);
            },
            _ => {},
        },
    }
    lemma_loop_if_middle(i, s1, c, over, again);
    assert(t.statements =~= if_code(
        tested(s1.statements, other, end),
        c,
        other,
        (a->0).0,
        end,
        code,
    ));
    grows_value(s, &*i.cond);
    assert(s.statements.is_prefix_of(s1.statements)) by {
        reveal(grows);
    }
    lemma_if_code_behind(s, s1, t, c, other, end, (a->0).0, code);
    lemma_chooses(s, s1, t, c, other, end, (a->0).0, code);
    assert(is_loop_else(s4, i, over, again, code));
}

// ── Methods and stand-ins ────────────────────────────────────────────

/// What `receiver.method(e1, .., en)` does where the method's policy lets it be lowered:
/// the receiver and `e1` to `en` are computed in order, and the method of the receiver's
/// type is called with their values in that order. What it returns is in a fresh
/// register.
pub proof fn law_method_call_calls_with_receiver_and_arguments<'a>(
    w: World<'a>,
    s: LowerState<'a>,
    e: &'a Expr,
    c: ExprMethodCall,
    owner: &'a String,
    m: Machine<'a>,
    n: Machine<'a>,
)
    requires
        e.kind == ExprKind::MethodCall(c),
        receiver_type(s.ctx.config, *c.receiver) == Some(owner),
        method_value(s, e).1 is Some,
        method_value(s, e).0.rejected is None,
        ran(w, s, before_arg(value(s, &*c.receiver).0, &c.args, 0, c.args.len() as int), m, n),
    ensures
        ({
            let (t, b) = method_value(s, e);
            let (s1, receiver) = value(s, &*c.receiver);
            let s2 = before_arg(s1, &c.args, 0, c.args.len() as int);
            &&& receiver is Some
            &&& b->0.kind is Int
            &&& s2.next_reg <= b->0.reg < t.next_reg
            &&& exists|args: Seq<Binding>| #[trigger]
                are_values(s1, &c.args, 0, args.skip(1)) && args.len() == c.args.len() + 1
                    && args[0] == receiver->0 && {
                    let call = Event::Called(Callee::Method(owner, &c.method), passed(n, args));
                    ran(
                        w,
                        s,
                        t,
                        m,
                        n.does(call).with_word(b->0.reg, (w.results)(call, n.events)),
                    )
                }
        }),
{
    let (s1, receiver) = value(s, &*c.receiver);
    let (s2, args) = call_args(s1, &c.args, 0, seq![receiver->0]);
    let kind = method_policy(s, owner@, c.method@)->0->Explicit_0;
    let (family, result, wrapped) = policy_shape(kind);
    let target = CallTarget::Method(owner, &c.method);
    let p = s2.reg_taken();
    let reg = s2.next_reg;
    lemma_method_form(s, e, c, owner);
    law_the_receiver_is_the_first_argument(s1, &c.args, receiver->0);
    lemma_taken(s2);
    law_call_passes_its_arguments(w, p, target, family, result, args->0, reg, n);
    let t = method_value(s, e).0;
    let call = Event::Called(Callee::Method(owner, &c.method), passed(n, args->0));
    let end = n.does(call).with_word(reg, (w.results)(call, n.events));
    lemma_ran_same(w, p, t, s2, t, n, end);
    lemma_ran_both(w, s, s2, t, m, n, end);
}

proof fn lemma_method_form<'a>(s: LowerState<'a>, e: &'a Expr, c: ExprMethodCall, owner: &'a String)
    requires
        e.kind == ExprKind::MethodCall(c),
        receiver_type(s.ctx.config, *c.receiver) == Some(owner),
        method_value(s, e).1 is Some,
    ensures
        method_policy(s, owner@, c.method@) is Some,
        method_policy(s, owner@, c.method@)->0 is Explicit,
        ({
            let (s1, receiver) = value(s, &*c.receiver);
            let (s2, args) = call_args(s1, &c.args, 0, seq![receiver->0]);
            let kind = method_policy(s, owner@, c.method@)->0->Explicit_0;
            let (family, result, wrapped) = policy_shape(kind);
            &&& receiver is Some
            &&& args is Some
            &&& result is Int
            &&& method_value(s, e).1->0.reg == s2.next_reg
            &&& method_value(s, e).1->0.kind is Int
            &&& method_value(s, e).0 == emit_call(
                s2.reg_taken(),
                CallTarget::Method(owner, &c.method),
                family,
                result,
                args->0,
                s2.next_reg,
            )
        }),
{
}

/// An I/O call computes its first argument, or what that borrows, and calls the
/// stand-in with the value.
pub proof fn law_io_call_calls_its_stand_in<'a>(
    w: World<'a>,
    s: LowerState<'a>,
    e: &'a Expr,
    c: ExprCall,
    shim: String,
    m: Machine<'a>,
    n: Machine<'a>,
)
    requires
        e.kind == ExprKind::Call(c),
        io_shim(s.ctx.config, *c.func) == Some(shim),
        c.args.len() > 0,
        io_call_stmt(s, e).1,
        io_call_stmt(s, e).0.rejected is None,
        ran(w, s, referent_value(s, &c.args[0]).0, m, n),
    ensures
        ({
            let (s1, b) = referent_value(s, &c.args[0]);
            &&& b is Some
            &&& (s1, b) == match c.args[0].kind {
                ExprKind::Reference(x) => value(s, &*x),
                _ => value(s, &c.args[0]),
            }
            &&& ran(
                w,
                s,
                io_call_stmt(s, e).0,
                m,
                n.does(
                    Event::Called(
                        Callee::Shim(&shim),
                        seq![(BindingKind::Int, n.word(b->0.reg))],
                    ),
                ),
            )
        }),
{
    let (s1, b) = referent_value(s, &c.args[0]);
    let t = shim_call(s1, &shim, b->0);
    assert(io_call_stmt(s, e) == (t, true));
    law_stand_in_gets_the_value(w, s1, &shim, b->0, n);
    let end = n.does(
        Event::Called(Callee::Shim(&shim), seq![(BindingKind::Int, n.word(b->0.reg))]),
    );
    lemma_ran_both(w, s, s1, t, m, n, end);
}

} // verus!
