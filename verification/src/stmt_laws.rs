//! What the code of a statement does.

use vstd::prelude::*;

use crate::analysis::is_promote;
use crate::ast::{Expr, ExprAssign, ExprKind, Local, Pat, path_ident, Stmt};
use crate::code_runs::{
    added, held, later, lemma_added_both, lemma_aux, lemma_not_rejected, lemma_ran_both,
    lemma_ran_one, lemma_ran_op, lemma_ran_same, lemma_taken, ran,
};
use crate::growth::grows;
use crate::growth_forms::{grows_loop_stmts, grows_lower_stmt, grows_value};
use crate::lower_spec::{
    expr_stmt, expr_stmt_vable, is_promotion, loop_stmt, loop_stmts, lower_local, lower_stmt,
    lower_stmts, promoted_name, scalar_index, state_array_write, state_field, state_field_write,
    update_target, value,
};
use crate::lowerer::{int_slot, LowerState};
use crate::machine::{
    control, defines, gets, leaves, lemma_leave_before, lemma_leave_behind, lemma_stays, Machine,
    runs, World,
};
use crate::ops::{Instr, Label, Op, OpKind};
use crate::value_laws::{fresh, law_field_read_gives_the_field};

verus! {

// ── Sequences ────────────────────────────────────────────────────────

/// The code of a list of statements is the code of the first one and behind it the
/// code of the others, which are lowered in the state that the first one leaves: it
/// runs them in order.
pub proof fn law_statements_run_in_order<'a>(
    w: World<'a>,
    s: LowerState<'a>,
    stmts: &'a Vec<Stmt>,
    i: int,
    end: int,
    m: Machine<'a>,
    x: Machine<'a>,
    n: Machine<'a>,
)
    requires
        0 <= i < end <= stmts.len(),
        lower_stmts(s, stmts, i, end).1,
        ran(w, s, lower_stmt(s, &stmts[i]).0, m, x),
        ran(
            w,
            lower_stmt(s, &stmts[i]).0,
            lower_stmts(lower_stmt(s, &stmts[i]).0, stmts, i + 1, end).0,
            x,
            n,
        ),
    ensures
        lower_stmt(s, &stmts[i]).1,
        lower_stmts(lower_stmt(s, &stmts[i]).0, stmts, i + 1, end).1,
        ran(w, s, lower_stmts(s, stmts, i, end).0, m, n),
{
    let s1 = lower_stmt(s, &stmts[i]).0;
    lemma_ran_both(w, s, s1, lower_stmts(s1, stmts, i + 1, end).0, m, x, n);
}

/// No statements leave no code.
pub proof fn law_no_statements_do_nothing<'a>(s: LowerState<'a>, stmts: &'a Vec<Stmt>, end: int)
    ensures
        lower_stmts(s, stmts, end, end) == (s, true),
{
}

/// Where a statement of a loop body is loop control or an `if` with some, that is what
/// it is lowered as.
pub open spec fn loop_part<'a>(s: LowerState<'a>, stmt: &'a Stmt, over: Label, again: Label) -> (
    LowerState<'a>,
    bool,
) {
    let (s1, done) = loop_stmt(s, stmt, over, again);
    if done {
        (s1, true)
    } else {
        lower_stmt(s1, stmt)
    }
}

/// The statements of a loop body run in order as well; where one of them leaves the
/// body, the body is left there.
pub proof fn law_loop_body_runs_in_order<'a>(
    w: World<'a>,
    s: LowerState<'a>,
    stmts: &'a Vec<Stmt>,
    i: int,
    over: Label,
    again: Label,
    m: Machine<'a>,
    x: Machine<'a>,
    n: Machine<'a>,
    l: Label,
)
    requires
        0 <= i < stmts.len(),
        loop_stmts(s, stmts, i, over, again).1,
        loop_stmts(s, stmts, i, over, again).0.rejected is None,
    ensures
        ({
            let (s1, done) = loop_part(s, &stmts[i], over, again);
            let (t, all) = loop_stmts(s1, stmts, i + 1, over, again);
            &&& done && all
            &&& loop_stmts(s, stmts, i, over, again).0 == t
            &&& ran(w, s, s1, m, x) && ran(w, s1, t, x, n) ==> ran(w, s, t, m, n)
            &&& leaves(w, added(s, s1), m, n, l) && !defines(added(s1, t), l) ==> leaves(
                w,
                added(s, t),
                m,
                n,
                l,
            )
            &&& ran(w, s, s1, m, x) && leaves(w, added(s1, t), x, n, l) && !defines(
                added(s, s1),
                l,
            ) ==> leaves(w, added(s, t), m, n, l)
        }),
{
    let (s1, done) = loop_part(s, &stmts[i], over, again);
    let (t, all) = loop_stmts(s1, stmts, i + 1, over, again);
    crate::growth_forms::grows_loop_stmt(s, &stmts[i], over, again);
    let s0 = loop_stmt(s, &stmts[i], over, again).0;
    grows_lower_stmt(s0, &stmts[i]);
    grows_loop_stmts(s1, stmts, i + 1, over, again);
    assert(s.statements.is_prefix_of(s1.statements) && s1.statements.is_prefix_of(t.statements))
        by {
        reveal(grows);
        assert forall|j: int| 0 <= j < s.statements.len() implies s.statements[j]
            == s1.statements[j] by {
            assert(s.statements[j] == s0.statements[j]);
        }
    }
    lemma_added_both(s, s1, t);
    if ran(w, s, s1, m, x) && ran(w, s1, t, x, n) {
        lemma_ran_both(w, s, s1, t, m, x, n);
    }
    if leaves(w, added(s, s1), m, n, l) && !defines(added(s1, t), l) {
        lemma_leave_before(w, added(s, s1), added(s1, t), m, n, l);
    }
    if ran(w, s, s1, m, x) && leaves(w, added(s1, t), x, n, l) && !defines(added(s, s1), l) {
        assert(runs(w, added(s, s1), m, x)) by {
            reveal(ran);
        }
        lemma_leave_behind(w, added(s, s1), added(s1, t), m, x, n, l);
    }
}

/// `break` leaves the loop body for the label behind the loop, `continue` for the
/// label in front of it; neither does anything else.
pub proof fn law_break_and_continue_leave_the_body<'a>(
    w: World<'a>,
    s: LowerState<'a>,
    stmt: &'a Stmt,
    e: Expr,
    semi: bool,
    over: Label,
    again: Label,
    m: Machine<'a>,
)
    requires
        *stmt == Stmt::Expr(e, semi),
        e.kind is Break || e.kind is Continue,
    ensures
        ({
            let (t, done) = loop_part(s, stmt, over, again);
            &&& done
            &&& later(s, t)
            &&& e.kind is Break ==> leaves(w, added(s, t), m, m, over)
            &&& e.kind is Continue ==> leaves(w, added(s, t), m, m, again)
        }),
{
    let l = if e.kind is Break {
        over
    } else {
        again
    };
    let t = s.jump(l);
    reveal(LowerState::jump);
    reveal(LowerState::push);
    let code = added(s, t);
    assert(code =~= seq![Instr::Op(Op::Jump(l))]);
    assert(!defines(code, l)) by {
        if defines(code, l) {
            let q = choose|q: int| crate::growth::marked(code, q, l);
            assert(code[q] == crate::growth::mark::<'a>(l));
        }
    }
    lemma_stays(w, code, m, 0);
    assert(gets(w, code, m, 0, m, 0));
}

// ── Names ────────────────────────────────────────────────────────────

/// `let name = init` computes `init` and makes `name` stand for its register. No
/// other name changes.
pub proof fn law_let_binds_its_value<'a>(
    w: World<'a>,
    s: LowerState<'a>,
    stmt: &'a Stmt,
    l: Local,
    name: Seq<char>,
    m: Machine<'a>,
    n: Machine<'a>,
)
    requires
        *stmt == Stmt::Local(l),
        l.init is Some,
        l.pat matches Pat::Ident(p) && p.ident@ == name,
        value(s, &*l.init->0.expr).1 is Some,
        lower_stmt(s, stmt).0.rejected is None,
        ran(w, s, value(s, &*l.init->0.expr).0, m, n),
    ensures
        ({
            let (s1, b) = value(s, &*l.init->0.expr);
            let (t, done) = lower_stmt(s, stmt);
            &&& done
            &&& t.bindings == s1.bindings.insert(name, b->0)
            &&& t.next_reg == s1.next_reg
            &&& ran(w, s, t, m, n)
        }),
{
    let (s1, b) = value(s, &*l.init->0.expr);
    reveal(LowerState::bind);
    match l.pat {
        Pat::Ident(p) => {
            let op = Op::LocalZero(&p.ident);
            if b->0.depends_on_stack {
                lemma_aux(s1, op);
                lemma_ran_one(w, s, s1, s1.aux(op), Instr::Op(op), m, n);
                lemma_ran_same(w, s, s1.aux(op), s, lower_stmt(s, stmt).0, m, n);
            } else {
                lemma_ran_same(w, s, s1, s, lower_stmt(s, stmt).0, m, n);
            }
        },
        _ => {},
    }
}

/// `let name = init` with an `init` that cannot be lowered and is a constant of the
/// trace: a fresh register gets the value of `init`, and `name` stands for it.
pub proof fn law_let_of_a_constant_binds_the_constant<'a>(
    w: World<'a>,
    s: LowerState<'a>,
    l: &'a Local,
    name: Seq<char>,
    m: Machine<'a>,
    n: Machine<'a>,
)
    requires
        l.init is Some,
        l.pat matches Pat::Ident(p) && p.ident@ == name,
        value(s, &*l.init->0.expr).1 is None,
        lower_local(s, l).1,
        lower_local(s, l).0.rejected is None,
        ran(w, s, value(s, &*l.init->0.expr).0, m, n),
    ensures
        ({
            let s1 = value(s, &*l.init->0.expr).0;
            let t = lower_local(s, l).0;
            &&& t.bindings.contains_key(name)
            &&& t.bindings == s1.bindings.insert(name, t.bindings[name])
            &&& t.bindings[name].kind is Int
            &&& fresh(s1, t, t.bindings[name].reg)
            &&& ran(
                w,
                s,
                t,
                m,
                n.with_word(t.bindings[name].reg, (w.quoted)(*l.init->0.expr)),
            )
        }),
{
    let s1 = value(s, &*l.init->0.expr).0;
    reveal(LowerState::bind);
    match l.pat {
        Pat::Ident(p) => {
            let reg = s1.next_reg;
            let op = Op::RuntimeConst(reg, &p.ident, &*l.init->0.expr);
            let writes = seq![int_slot(reg)];
            lemma_taken(s1);
            lemma_ran_same(w, s, s1, s, s1.reg_taken(), m, n);
            lemma_ran_op(w, s, s1.reg_taken(), OpKind::LoadConstI, seq![], writes, op, m, n);
            assert(writes[0].reg == reg);
            let u = s1.reg_taken().emit_op(OpKind::LoadConstI, seq![], writes, op);
            lemma_ran_same(
                w,
                s,
                u,
                s,
                lower_local(s, l).0,
                m,
                n.with_word(reg, (w.quoted)(*l.init->0.expr)),
            );
        },
        _ => {},
    }
}

/// `name = promote(x)` computes and pins `x` and makes `name` stand for it.
pub proof fn law_promotion_rebinds_its_name<'a>(
    w: World<'a>,
    s: LowerState<'a>,
    e: &'a Expr,
    a: ExprAssign,
    name: Seq<char>,
    m: Machine<'a>,
    n: Machine<'a>,
)
    requires
        e.kind == ExprKind::Assign(a),
        a.left.kind matches ExprKind::Path(p) && path_ident(p.path) is Some && path_ident(
            p.path,
        )->0@ == name,
        a.right.kind matches ExprKind::Call(c) && is_promote(*c.func),
        value(s, &*a.right).1 is Some,
        ran(w, s, value(s, &*a.right).0, m, n),
    ensures
        ({
            let (s1, b) = value(s, &*a.right);
            let (t, done) = expr_stmt(s, e);
            &&& done
            &&& t.bindings == s1.bindings.insert(name, b->0)
            &&& t.next_reg == s1.next_reg
            &&& ran(w, s, t, m, n)
        }),
{
    reveal(promoted_name);
    reveal(LowerState::bind);
    let s1 = value(s, &*a.right).0;
    lemma_ran_same(w, s, s1, s, expr_stmt(s, e).0, m, n);
}

// ── Fields of the state ──────────────────────────────────────────────

/// `state.field = x` computes `x` and puts its value into the field. Nothing else
/// changes.
pub proof fn law_field_write_sets_the_field<'a>(
    w: World<'a>,
    s: LowerState<'a>,
    e: &'a Expr,
    a: ExprAssign,
    name: Seq<char>,
    field: u16,
    m: Machine<'a>,
    n: Machine<'a>,
)
    requires
        e.kind == ExprKind::Assign(a),
        state_field(*a.left) == Some(name),
        scalar_index(s.ctx.config, name) == Some(field),
        value(s, &*a.right).1 is Some,
        value(s, &*a.right).1->0.kind is Int,
        expr_stmt(s, e).0.rejected is None,
        ran(w, s, value(s, &*a.right).0, m, n),
    ensures
        ({
            let (s1, b) = value(s, &*a.right);
            let (t, done) = expr_stmt(s, e);
            &&& done
            &&& later(s1, t)
            &&& ran(w, s, t, m, n.with_field(field, held(n, b->0)))
        }),
{
    lemma_assign_form(s, e, a);
    let (s1, b) = value(s, &*a.right);
    lemma_ran_op(
        w,
        s,
        s1,
        OpKind::StateField,
        seq![int_slot(b->0.reg)],
        seq![],
        Op::StoreStateField(field, b->0.reg),
        m,
        n,
    );
}

pub proof fn lemma_assign_form<'a>(s: LowerState<'a>, e: &'a Expr, a: ExprAssign)
    requires
        e.kind == ExprKind::Assign(a),
        !(a.left.kind is Path),
    ensures
        state_field_write(s, e).1 ==> expr_stmt(s, e) == state_field_write(s, e),
        state_field_write(s, e) == (s, false) ==> expr_stmt(s, e) == {
            let (s1, r1) = state_array_write(s, e);
            if r1 {
                (s1, r1)
            } else {
                expr_stmt_vable(s1, e)
            }
        },
{
    reveal(promoted_name);
    reveal(is_promotion);
    reveal(update_target);
}

/// A read of `state.field` behind `state.field = x` gives the value of `x`.
pub proof fn law_field_read_behind_a_write_gives_what_was_written<'a>(
    w: World<'a>,
    s: LowerState<'a>,
    write: &'a Expr,
    a: ExprAssign,
    read: &'a Expr,
    name: Seq<char>,
    field: u16,
    m: Machine<'a>,
    n: Machine<'a>,
)
    requires
        write.kind == ExprKind::Assign(a),
        state_field(*a.left) == Some(name),
        state_field(*read) == Some(name),
        scalar_index(s.ctx.config, name) == Some(field),
        value(s, &*a.right).1 is Some,
        value(s, &*a.right).1->0.kind is Int,
        ran(w, s, value(s, &*a.right).0, m, n),
        value(expr_stmt(s, write).0, read).0.rejected is None,
    ensures
        ({
            let t = expr_stmt(s, write).0;
            let (u, r) = value(t, read);
            r is Some && exists|end: Machine<'a>| #[trigger]
                ran(w, s, u, m, end) && held(end, r->0) == held(n, value(s, &*a.right).1->0)
        }),
{
    let t = expr_stmt(s, write).0;
    grows_value(t, read);
    lemma_not_rejected(t, value(t, read).0);
    law_field_write_sets_the_field(w, s, write, a, name, field, m, n);
    let x = n.with_field(field, held(n, value(s, &*a.right).1->0));
    grows_value(s, &*a.right);
    assert(t.ctx == s.ctx) by {
        reveal(grows);
    }
    law_field_read_gives_the_field(w, t, read, name, field, x);
    let (u, r) = value(t, read);
    let end = x.with_word(r->0.reg, (x.fields)(field));
    lemma_ran_both(w, s, t, u, m, x, end);
}

} // verus!
