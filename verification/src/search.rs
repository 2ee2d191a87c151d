//! Search for a node by its id.

use vstd::prelude::*;

use crate::ast::{Arm, Block, Expr, ExprKind, NodeId, Stmt};

verus! {

/// Whether the node is the expression or stands in it.
pub open spec fn holds(e: Expr, id: NodeId) -> bool
    decreases e, 0int,
{
    e.id == id || match e.kind {
        ExprKind::Lit(_) => false,
        ExprKind::Path(_) => false,
        ExprKind::Cast(c) => holds(*c.expr, id) || any_holds(c.ty_exprs, 0, id),
        ExprKind::Paren(x) => holds(*x, id),
        ExprKind::Reference(x) => holds(*x, id),
        ExprKind::If(i) => holds(*i.cond, id) || stmts_hold(i.then_branch.stmts, 0, id)
            || match i.else_branch {
            Some(x) => holds(*x, id),
            None => false,
        },
        ExprKind::Match(m) => holds(*m.expr, id) || arms_hold(m.arms, 0, id),
        ExprKind::Unary(u) => holds(*u.expr, id),
        ExprKind::Binary(b) => holds(*b.left, id) || holds(*b.right, id),
        ExprKind::Assign(a) => holds(*a.left, id) || holds(*a.right, id),
        ExprKind::Call(c) => holds(*c.func, id) || any_holds(c.args, 0, id),
        ExprKind::MethodCall(c) => holds(*c.receiver, id) || any_holds(c.args, 0, id),
        ExprKind::Field(f) => holds(*f.base, id),
        ExprKind::Index(x) => holds(*x.expr, id) || holds(*x.index, id),
        ExprKind::Block(b) => stmts_hold(b.stmts, 0, id),
        ExprKind::While(w) => holds(*w.cond, id) || stmts_hold(w.body.stmts, 0, id),
        ExprKind::Loop(b) => stmts_hold(b.stmts, 0, id),
        ExprKind::ForLoop(v) => any_holds(v, 0, id),
        ExprKind::Break(v) => any_holds(v, 0, id),
        ExprKind::Continue => false,
        ExprKind::Try(x) => holds(*x, id),
        ExprKind::Macro(_) => false,
        ExprKind::Other(v) => any_holds(v, 0, id),
    }
}

/// Whether the node stands in one of the expressions from the `i`th on.
pub open spec fn any_holds(v: Vec<Expr>, i: int, id: NodeId) -> bool
    decreases v, v.len() - i,
{
    if 0 <= i < v.len() {
        holds(v[i], id) || any_holds(v, i + 1, id)
    } else {
        false
    }
}

/// Whether the node stands in one of the arms from the `i`th on.
pub open spec fn arms_hold(v: Vec<Arm>, i: int, id: NodeId) -> bool
    decreases v, v.len() - i,
{
    if 0 <= i < v.len() {
        ||| match v[i].guard {
            Some(g) => holds(*g, id),
            None => false,
        }
        ||| holds(*v[i].body, id)
        ||| arms_hold(v, i + 1, id)
    } else {
        false
    }
}

/// Whether the node stands in the statement.
pub open spec fn stmt_holds(s: Stmt, id: NodeId) -> bool
    decreases s, 0int,
{
    match s {
        Stmt::Local(l) => match l.init {
            Some(init) => holds(*init.expr, id) || match init.diverge {
                Some(d) => holds(*d, id),
                None => false,
            },
            None => false,
        },
        Stmt::Expr(e, _) => holds(e, id),
        Stmt::Macro(_) => false,
        Stmt::Item(v) => any_holds(v, 0, id),
    }
}

/// Whether the node stands in one of the statements from the `i`th on.
pub open spec fn stmts_hold(v: Vec<Stmt>, i: int, id: NodeId) -> bool
    decreases v, v.len() - i,
{
    if 0 <= i < v.len() {
        stmt_holds(v[i], id) || stmts_hold(v, i + 1, id)
    } else {
        false
    }
}

/// Whether the node is the expression or stands in it.
pub fn expr_contains(e: &Expr, id: NodeId) -> (r: bool)
    ensures
        r == holds(*e, id),
    decreases *e, 0int,
{
    if e.id == id {
        return true;
    }
    match &e.kind {
        ExprKind::Lit(_) => false,
        ExprKind::Path(_) => false,
        ExprKind::Cast(c) => expr_contains(&c.expr, id) || any_contains(&c.ty_exprs, 0, id),
        ExprKind::Paren(x) => expr_contains(x, id),
        ExprKind::Reference(x) => expr_contains(x, id),
        ExprKind::If(i) => expr_contains(&i.cond, id) || stmts_contain(&i.then_branch.stmts, 0, id)
            || match &i.else_branch {
            Some(x) => expr_contains(x, id),
            None => false,
        },
        ExprKind::Match(m) => expr_contains(&m.expr, id) || arms_contain(&m.arms, 0, id),
        ExprKind::Unary(u) => expr_contains(&u.expr, id),
        ExprKind::Binary(b) => expr_contains(&b.left, id) || expr_contains(&b.right, id),
        ExprKind::Assign(a) => expr_contains(&a.left, id) || expr_contains(&a.right, id),
        ExprKind::Call(c) => expr_contains(&c.func, id) || any_contains(&c.args, 0, id),
        ExprKind::MethodCall(c) => expr_contains(&c.receiver, id) || any_contains(&c.args, 0, id),
        ExprKind::Field(f) => expr_contains(&f.base, id),
        ExprKind::Index(x) => expr_contains(&x.expr, id) || expr_contains(&x.index, id),
        ExprKind::Block(b) => stmts_contain(&b.stmts, 0, id),
        ExprKind::While(w) => expr_contains(&w.cond, id) || stmts_contain(&w.body.stmts, 0, id),
        ExprKind::Loop(b) => stmts_contain(&b.stmts, 0, id),
        ExprKind::ForLoop(v) => any_contains(v, 0, id),
        ExprKind::Break(v) => any_contains(v, 0, id),
        ExprKind::Continue => false,
        ExprKind::Try(x) => expr_contains(x, id),
        ExprKind::Macro(_) => false,
        ExprKind::Other(v) => any_contains(v, 0, id),
    }
}

fn any_contains(v: &Vec<Expr>, i: usize, id: NodeId) -> (r: bool)
    requires
        i <= v.len(),
    ensures
        r == any_holds(*v, i as int, id),
    decreases *v, v.len() - i,
{
    if i < v.len() {
        expr_contains(&v[i], id) || any_contains(v, i + 1, id)
    } else {
        false
    }
}

fn arms_contain(v: &Vec<Arm>, i: usize, id: NodeId) -> (r: bool)
    requires
        i <= v.len(),
    ensures
        r == arms_hold(*v, i as int, id),
    decreases *v, v.len() - i,
{
    if i < v.len() {
        let arm = &v[i];
        let guarded = match &arm.guard {
            Some(g) => expr_contains(g, id),
            None => false,
        };
        guarded || expr_contains(&arm.body, id) || arms_contain(v, i + 1, id)
    } else {
        false
    }
}

/// Whether the node stands in the statement.
pub fn stmt_contains(s: &Stmt, id: NodeId) -> (r: bool)
    ensures
        r == stmt_holds(*s, id),
    decreases *s, 0int,
{
    match s {
        Stmt::Local(l) => match &l.init {
            Some(init) => expr_contains(&init.expr, id) || match &init.diverge {
                Some(d) => expr_contains(d, id),
                None => false,
            },
            None => false,
        },
        Stmt::Expr(e, _) => expr_contains(e, id),
        Stmt::Macro(_) => false,
        Stmt::Item(v) => any_contains(v, 0, id),
    }
}

fn stmts_contain(v: &Vec<Stmt>, i: usize, id: NodeId) -> (r: bool)
    requires
        i <= v.len(),
    ensures
        r == stmts_hold(*v, i as int, id),
    decreases *v, v.len() - i,
{
    if i < v.len() {
        stmt_contains(&v[i], id) || stmts_contain(v, i + 1, id)
    } else {
        false
    }
}

/// Whether the node stands in the block.
pub fn block_contains(b: &Block, id: NodeId) -> (r: bool)
    ensures
        r == stmts_hold(b.stmts, 0, id),
{
    stmts_contain(&b.stmts, 0, id)
}

} // verus!
