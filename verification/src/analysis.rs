//! Questions about source expressions: which names they use and bind, whether
//! they touch interpreter state, what their literals are.

use vstd::prelude::*;

use crate::ast::{
    Arm, Block, Expr, ExprKind, ExprPath, Lit, Local, member_text, Pat, Path, path_ident,
    path_is_ident, segment_names, Stmt, Type,
};
use crate::config::LowererConfig;
use crate::kinds::Binding;
use crate::policy::{hint_of_segments, VirtualizableHintKind};
use crate::text::{NameSet, NameTable, same_text};

verus! {

// ── Names that patterns bind ─────────────────────────────────────────

/// The names that a pattern binds.
pub open spec fn pat_names(pat: Pat) -> Set<Seq<char>>
    decreases pat, 0int,
{
    match pat {
        Pat::Ident(p) => match p.subpat {
            Some(sub) => pat_names(*sub).insert(p.ident@),
            None => Set::empty().insert(p.ident@),
        },
        Pat::TupleStruct(v) => pats_names(v, v.len() as int),
        Pat::Tuple(v) => pats_names(v, v.len() as int),
        Pat::Struct(v) => pats_names(v, v.len() as int),
        Pat::Or(v) => pats_names(v, v.len() as int),
        Pat::Slice(v) => pats_names(v, v.len() as int),
        Pat::Reference(p) => pat_names(*p),
        Pat::Type(p) => pat_names(*p),
        Pat::Paren(p) => pat_names(*p),
        _ => Set::empty(),
    }
}

/// The names that the first `n` patterns bind.
pub open spec fn pats_names(pats: Vec<Pat>, n: int) -> Set<Seq<char>>
    decreases pats, n,
{
    if 0 < n <= pats.len() {
        pats_names(pats, n - 1).union(pat_names(pats[n - 1]))
    } else {
        Set::empty()
    }
}

/// Adds the names that `pat` binds to `out`.
pub fn collect_pat_bound_idents(pat: &Pat, out: &mut NameSet)
    ensures
        final(out)@ == old(out)@.union(pat_names(*pat)),
    decreases *pat, 0int,
{
    match pat {
        Pat::Ident(p) => {
            let ghost before = out@;
            out.insert(p.ident.clone());
            match &p.subpat {
                Some(sub) => {
                    collect_pat_bound_idents(sub, out);
                },
                None => {},
            }
            assert(out@ =~= before.union(pat_names(*pat)));
        },
        Pat::TupleStruct(v) => collect_pats_bound_idents(v, out),
        Pat::Tuple(v) => collect_pats_bound_idents(v, out),
        Pat::Struct(v) => collect_pats_bound_idents(v, out),
        Pat::Or(v) => collect_pats_bound_idents(v, out),
        Pat::Slice(v) => collect_pats_bound_idents(v, out),
        Pat::Reference(p) => collect_pat_bound_idents(p, out),
        Pat::Type(p) => collect_pat_bound_idents(p, out),
        Pat::Paren(p) => collect_pat_bound_idents(p, out),
        _ => {
            assert(out@ =~= out@.union(Set::empty()));
        },
    }
}

fn collect_pats_bound_idents(pats: &Vec<Pat>, out: &mut NameSet)
    ensures
        final(out)@ == old(out)@.union(pats_names(*pats, pats.len() as int)),
    decreases *pats, pats.len() + 1,
{
    let mut i: usize = 0;
    assert(out@ =~= out@.union(pats_names(*pats, 0)));
    while i < pats.len()
        invariant
            i <= pats.len(),
            out@ == old(out)@.union(pats_names(*pats, i as int)),
        decreases pats.len() - i,
    {
        collect_pat_bound_idents(&pats[i], out);
        assert(out@ =~= old(out)@.union(pats_names(*pats, i + 1)));
        i = i + 1;
    }
}

// ── Free uses of bound names ─────────────────────────────────────────

/// The name that a path stands for where it can be a local variable.
pub open spec fn local_path_name(p: ExprPath) -> Option<String> {
    if !p.qself && p.path.segments@.len() == 1 && !p.path.segments@[0].has_arguments {
        Some(p.path.segments@[0].ident)
    } else {
        None
    }
}

/// The name that a path stands for where it can be a local variable.
pub fn local_name(p: &ExprPath) -> (r: Option<&String>)
    ensures
        match r {
            Some(s) => local_path_name(*p) == Some(*s),
            None => local_path_name(*p) is None,
        },
{
    if !p.qself && p.path.segments.len() == 1 && !p.path.segments[0].has_arguments {
        Some(&p.path.segments[0].ident)
    } else {
        None
    }
}

/// Whether the path names one of `bound` that is not shadowed.
pub open spec fn path_uses(bound: Set<Seq<char>>, hidden: Set<Seq<char>>, p: ExprPath) -> bool {
    match local_path_name(p) {
        Some(s) => !hidden.contains(s@) && bound.contains(s@),
        None => false,
    }
}

/// Whether the expression uses one of the `bound` names. `hidden` are the names
/// that enclosing blocks and match arms have bound anew.
pub open spec fn uses(bound: Set<Seq<char>>, hidden: Set<Seq<char>>, e: Expr) -> bool
    decreases e, 0int,
{
    match e.kind {
        ExprKind::Lit(_) => false,
        ExprKind::Path(p) => path_uses(bound, hidden, p),
        ExprKind::Cast(c) => uses(bound, hidden, *c.expr) || any_uses(
            bound,
            hidden,
            c.ty_exprs,
            0,
        ),
        ExprKind::Paren(x) => uses(bound, hidden, *x),
        ExprKind::Reference(x) => uses(bound, hidden, *x),
        ExprKind::If(i) => {
            ||| uses(bound, hidden, *i.cond)
            ||| stmts_use(bound, hidden, i.then_branch.stmts, 0)
            ||| match i.else_branch {
                Some(x) => uses(bound, hidden, *x),
                None => false,
            }
        },
        ExprKind::Match(m) => uses(bound, hidden, *m.expr) || arms_use(bound, hidden, m.arms, 0),
        ExprKind::Unary(u) => uses(bound, hidden, *u.expr),
        ExprKind::Binary(b) => uses(bound, hidden, *b.left) || uses(bound, hidden, *b.right),
        ExprKind::Assign(a) => uses(bound, hidden, *a.left) || uses(bound, hidden, *a.right),
        ExprKind::Call(c) => uses(bound, hidden, *c.func) || any_uses(bound, hidden, c.args, 0),
        ExprKind::MethodCall(c) => uses(bound, hidden, *c.receiver) || any_uses(
            bound,
            hidden,
            c.args,
            0,
        ),
        ExprKind::Field(f) => uses(bound, hidden, *f.base),
        ExprKind::Index(x) => uses(bound, hidden, *x.expr) || uses(bound, hidden, *x.index),
        ExprKind::Block(b) => stmts_use(bound, hidden, b.stmts, 0),
        ExprKind::While(w) => uses(bound, hidden, *w.cond) || stmts_use(
            bound,
            hidden,
            w.body.stmts,
            0,
        ),
        ExprKind::Loop(b) => stmts_use(bound, hidden, b.stmts, 0),
        ExprKind::ForLoop(v) => any_uses(bound, hidden, v, 0),
        ExprKind::Break(v) => any_uses(bound, hidden, v, 0),
        ExprKind::Continue => false,
        ExprKind::Try(x) => uses(bound, hidden, *x),
        ExprKind::Macro(_) => false,
        ExprKind::Other(v) => any_uses(bound, hidden, v, 0),
    }
}

pub open spec fn any_uses(
    bound: Set<Seq<char>>,
    hidden: Set<Seq<char>>,
    v: Vec<Expr>,
    i: int,
) -> bool
    decreases v, v.len() - i,
{
    if 0 <= i < v.len() {
        uses(bound, hidden, v[i]) || any_uses(bound, hidden, v, i + 1)
    } else {
        false
    }
}

pub open spec fn arms_use(
    bound: Set<Seq<char>>,
    hidden: Set<Seq<char>>,
    v: Vec<Arm>,
    i: int,
) -> bool
    decreases v, v.len() - i,
{
    if 0 <= i < v.len() {
        let inner = hidden.union(pat_names(v[i].pat));
        ||| match v[i].guard {
            Some(g) => uses(bound, inner, *g),
            None => false,
        }
        ||| uses(bound, inner, *v[i].body)
        ||| arms_use(bound, hidden, v, i + 1)
    } else {
        false
    }
}

pub open spec fn stmts_use(
    bound: Set<Seq<char>>,
    hidden: Set<Seq<char>>,
    v: Vec<Stmt>,
    i: int,
) -> bool
    decreases v, v.len() - i,
{
    if 0 <= i < v.len() {
        match v[i] {
            Stmt::Local(l) => {
                ||| match l.init {
                    Some(init) => uses(bound, hidden, *init.expr) || match init.diverge {
                        Some(d) => uses(bound, hidden, *d),
                        None => false,
                    },
                    None => false,
                }
                ||| stmts_use(bound, hidden.union(pat_names(l.pat)), v, i + 1)
            },
            Stmt::Expr(e, _) => uses(bound, hidden, e) || stmts_use(bound, hidden, v, i + 1),
            Stmt::Macro(_) => stmts_use(bound, hidden, v, i + 1),
            Stmt::Item(x) => any_uses(bound, hidden, x, 0) || stmts_use(bound, hidden, v, i + 1),
        }
    } else {
        false
    }
}

/// Whether the expression uses a bound name that no inner `let` or pattern
/// shadows.
pub fn expr_references_any_binding(bindings: &NameTable<Binding>, expr: &Expr) -> (r: bool)
    ensures
        r == uses(bindings@.dom(), Set::empty(), *expr),
{
    let hidden = NameSet::new();
    expr_uses(bindings, &hidden, expr)
}

fn expr_uses(bindings: &NameTable<Binding>, hidden: &NameSet, expr: &Expr) -> (r: bool)
    ensures
        r == uses(bindings@.dom(), hidden@, *expr),
    decreases *expr, 0int,
{
    match &expr.kind {
        ExprKind::Lit(_) => false,
        ExprKind::Path(p) => match local_name(p) {
            Some(s) => !hidden.contains(s.as_str()) && bindings.contains_key(s.as_str()),
            None => false,
        },
        ExprKind::Cast(c) => expr_uses(bindings, hidden, &c.expr) || any_expr_uses(
            bindings,
            hidden,
            &c.ty_exprs,
            0,
        ),
        ExprKind::Paren(x) => expr_uses(bindings, hidden, x),
        ExprKind::Reference(x) => expr_uses(bindings, hidden, x),
        ExprKind::If(i) => {
            if expr_uses(bindings, hidden, &i.cond) {
                return true;
            }
            if stmts_uses(bindings, hidden, &i.then_branch.stmts, 0) {
                return true;
            }
            match &i.else_branch {
                Some(x) => expr_uses(bindings, hidden, x),
                None => false,
            }
        },
        ExprKind::Match(m) => expr_uses(bindings, hidden, &m.expr) || arms_uses(
            bindings,
            hidden,
            &m.arms,
            0,
        ),
        ExprKind::Unary(u) => expr_uses(bindings, hidden, &u.expr),
        ExprKind::Binary(b) => expr_uses(bindings, hidden, &b.left) || expr_uses(
            bindings,
            hidden,
            &b.right,
        ),
        ExprKind::Assign(a) => expr_uses(bindings, hidden, &a.left) || expr_uses(
            bindings,
            hidden,
            &a.right,
        ),
        ExprKind::Call(c) => expr_uses(bindings, hidden, &c.func) || any_expr_uses(
            bindings,
            hidden,
            &c.args,
            0,
        ),
        ExprKind::MethodCall(c) => expr_uses(bindings, hidden, &c.receiver) || any_expr_uses(
            bindings,
            hidden,
            &c.args,
            0,
        ),
        ExprKind::Field(f) => expr_uses(bindings, hidden, &f.base),
        ExprKind::Index(x) => expr_uses(bindings, hidden, &x.expr) || expr_uses(
            bindings,
            hidden,
            &x.index,
        ),
        ExprKind::Block(b) => stmts_uses(bindings, hidden, &b.stmts, 0),
        ExprKind::While(w) => expr_uses(bindings, hidden, &w.cond) || stmts_uses(
            bindings,
            hidden,
            &w.body.stmts,
            0,
        ),
        ExprKind::Loop(b) => stmts_uses(bindings, hidden, &b.stmts, 0),
        ExprKind::ForLoop(v) => any_expr_uses(bindings, hidden, v, 0),
        ExprKind::Break(v) => any_expr_uses(bindings, hidden, v, 0),
        ExprKind::Continue => false,
        ExprKind::Try(x) => expr_uses(bindings, hidden, x),
        ExprKind::Macro(_) => false,
        ExprKind::Other(v) => any_expr_uses(bindings, hidden, v, 0),
    }
}

fn any_expr_uses(bindings: &NameTable<Binding>, hidden: &NameSet, v: &Vec<Expr>, i: usize) -> (r:
    bool)
    requires
        i <= v.len(),
    ensures
        r == any_uses(bindings@.dom(), hidden@, *v, i as int),
    decreases *v, v.len() - i,
{
    if i < v.len() {
        expr_uses(bindings, hidden, &v[i]) || any_expr_uses(bindings, hidden, v, i + 1)
    } else {
        false
    }
}

fn arms_uses(bindings: &NameTable<Binding>, hidden: &NameSet, v: &Vec<Arm>, i: usize) -> (r: bool)
    requires
        i <= v.len(),
    ensures
        r == arms_use(bindings@.dom(), hidden@, *v, i as int),
    decreases *v, v.len() - i,
{
    if i < v.len() {
        let arm = &v[i];
        let mut inner = hidden.copied();
        collect_pat_bound_idents(&arm.pat, &mut inner);
        let guarded = match &arm.guard {
            Some(g) => expr_uses(bindings, &inner, g),
            None => false,
        };
        guarded || expr_uses(bindings, &inner, &arm.body) || arms_uses(
            bindings,
            hidden,
            v,
            i + 1,
        )
    } else {
        false
    }
}

fn stmts_uses(bindings: &NameTable<Binding>, hidden: &NameSet, v: &Vec<Stmt>, i: usize) -> (r: bool)
    requires
        i <= v.len(),
    ensures
        r == stmts_use(bindings@.dom(), hidden@, *v, i as int),
    decreases *v, v.len() - i,
{
    if i < v.len() {
        match &v[i] {
            Stmt::Local(l) => {
                if let Some(init) = &l.init {
                    if expr_uses(bindings, hidden, &init.expr) {
                        return true;
                    }
                    if let Some(d) = &init.diverge {
                        if expr_uses(bindings, hidden, d) {
                            return true;
                        }
                    }
                }
                let mut inner = hidden.copied();
                collect_pat_bound_idents(&l.pat, &mut inner);
                stmts_uses(bindings, &inner, v, i + 1)
            },
            Stmt::Expr(e, _) => expr_uses(bindings, hidden, e) || stmts_uses(
                bindings,
                hidden,
                v,
                i + 1,
            ),
            Stmt::Macro(_) => stmts_uses(bindings, hidden, v, i + 1),
            Stmt::Item(x) => any_expr_uses(bindings, hidden, x, 0) || stmts_uses(
                bindings,
                hidden,
                v,
                i + 1,
            ),
        }
    } else {
        false
    }
}

// ── Hints and promotions ─────────────────────────────────────────────

/// The hint that a path stands for.
pub fn classify_virtualizable_hint_path(path: &Path) -> (r: Option<VirtualizableHintKind>)
    ensures
        r == hint_of_segments(segment_names(*path)),
{
    let segments = crate::ast::canonical_path_segments(path);
    crate::policy::classify_virtualizable_hint_segments(segments.as_slice())
}

/// Whether a callee is the promotion hint, under any of its names.
pub open spec fn is_promote(func: Expr) -> bool {
    match func.kind {
        ExprKind::Path(p) => {
            let names = segment_names(p.path);
            ||| names == seq!["promote"@]
            ||| names == seq!["hint_promote"@]
            ||| names == seq!["jit"@, "promote"@]
        },
        _ => false,
    }
}

/// Whether a callee is the promotion hint: `promote`, `hint_promote` or
/// `jit::promote`.
pub fn is_promote_call_path(func: &Expr) -> (r: bool)
    ensures
        r == is_promote(*func),
{
    match &func.kind {
        ExprKind::Path(p) => {
            let segments = &p.path.segments;
            let ghost names = segment_names(p.path);
            if segments.len() == 1 {
                let one = segments[0].ident.as_str();
                assert(names =~= seq![one@]);
                assert(names.len() != seq!["jit"@, "promote"@].len());
                assert(names == seq!["promote"@] ==> names[0] == "promote"@);
                assert(names == seq!["hint_promote"@] ==> names[0] == "hint_promote"@);
                same_text(one, "promote") || same_text(one, "hint_promote")
            } else if segments.len() == 2 {
                let one = segments[0].ident.as_str();
                let two = segments[1].ident.as_str();
                assert(names =~= seq![one@, two@]);
                assert(names.len() != seq!["promote"@].len());
                assert(names.len() != seq!["hint_promote"@].len());
                assert(names == seq!["jit"@, "promote"@] ==> names[0] == "jit"@ && names[1]
                    == "promote"@);
                same_text(one, "jit") && same_text(two, "promote")
            } else {
                assert(names.len() == segments@.len());
                assert(names.len() != seq!["promote"@].len());
                assert(names.len() != seq!["hint_promote"@].len());
                assert(names.len() != seq!["jit"@, "promote"@].len());
                false
            }
        },
        _ => false,
    }
}

// ── Interpreter state ────────────────────────────────────────────────

/// Whether the expression is the interpreter state itself.
pub open spec fn is_state_root(e: Expr) -> bool
    decreases e,
{
    match e.kind {
        ExprKind::Path(p) => path_is_ident(p.path, "state"@),
        ExprKind::Paren(x) => is_state_root(*x),
        ExprKind::Reference(x) => is_state_root(*x),
        _ => false,
    }
}

/// Whether the expression is the interpreter state itself.
pub fn expr_is_state_root(expr: &Expr) -> (r: bool)
    ensures
        r == is_state_root(*expr),
    decreases *expr,
{
    match &expr.kind {
        ExprKind::Path(p) => p.path.is_ident("state"),
        ExprKind::Paren(x) => expr_is_state_root(x),
        ExprKind::Reference(x) => expr_is_state_root(x),
        _ => false,
    }
}

pub open spec fn declares_field(config: LowererConfig, name: Seq<char>) -> bool {
    ||| config.state_scalars@.contains_key(name)
    ||| config.state_arrays@.contains_key(name)
    ||| config.state_virt_arrays@.contains_key(name)
}

/// Whether the expression is a declared state field, or an element of one.
pub open spec fn is_state_place(config: Option<&LowererConfig>, e: Expr) -> bool
    decreases e,
{
    match config {
        None => false,
        Some(c) => match e.kind {
            ExprKind::Field(f) => is_state_root(*f.base) && declares_field(*c, member_text(f.member)),
            ExprKind::Index(x) => is_state_place(config, *x.expr),
            _ => false,
        },
    }
}

/// Whether the expression is a declared state field, or an element of one.
pub fn expr_is_jit_state_place(config: Option<&LowererConfig>, expr: &Expr) -> (r: bool)
    ensures
        r == is_state_place(config, *expr),
    decreases *expr,
{
    match config {
        None => false,
        Some(c) => match &expr.kind {
            ExprKind::Field(f) => {
                if !expr_is_state_root(&f.base) {
                    return false;
                }
                let name = crate::ast::canonical_member_name(&f.member);
                c.state_scalars.contains_key(name.as_str()) || c.state_arrays.contains_key(
                    name.as_str(),
                ) || c.state_virt_arrays.contains_key(name.as_str())
            },
            ExprKind::Index(x) => expr_is_jit_state_place(config, &x.expr),
            _ => false,
        },
    }
}

/// Whether the expression assigns to a declared state field.
pub open spec fn modifies(config: Option<&LowererConfig>, e: Expr) -> bool
    decreases e, 0int,
{
    match e.kind {
        ExprKind::Assign(a) => {
            ||| is_state_place(config, *a.left)
            ||| modifies(config, *a.left)
            ||| modifies(config, *a.right)
        },
        ExprKind::MethodCall(c) => modifies(config, *c.receiver) || any_modifies(config, c.args, 0),
        ExprKind::Block(b) => stmts_modify(config, b.stmts, 0),
        ExprKind::If(i) => {
            ||| modifies(config, *i.cond)
            ||| stmts_modify(config, i.then_branch.stmts, 0)
            ||| match i.else_branch {
                Some(x) => modifies(config, *x),
                None => false,
            }
        },
        ExprKind::Call(c) => modifies(config, *c.func) || any_modifies(config, c.args, 0),
        ExprKind::Binary(b) => modifies(config, *b.left) || modifies(config, *b.right),
        ExprKind::Cast(c) => modifies(config, *c.expr),
        ExprKind::Paren(x) => modifies(config, *x),
        ExprKind::Reference(x) => modifies(config, *x),
        ExprKind::Unary(u) => modifies(config, *u.expr),
        _ => false,
    }
}

pub open spec fn any_modifies(config: Option<&LowererConfig>, v: Vec<Expr>, i: int) -> bool
    decreases v, v.len() - i,
{
    if 0 <= i < v.len() {
        modifies(config, v[i]) || any_modifies(config, v, i + 1)
    } else {
        false
    }
}

/// Whether a statement assigns to a declared state field.
pub open spec fn stmt_modifies(config: Option<&LowererConfig>, s: Stmt) -> bool
    decreases s, 0int,
{
    match s {
        Stmt::Expr(e, _) => modifies(config, e),
        Stmt::Local(l) => match l.init {
            Some(init) => modifies(config, *init.expr),
            None => false,
        },
        _ => false,
    }
}

pub open spec fn stmts_modify(config: Option<&LowererConfig>, v: Vec<Stmt>, i: int) -> bool
    decreases v, v.len() - i,
{
    if 0 <= i < v.len() {
        stmt_modifies(config, v[i]) || stmts_modify(config, v, i + 1)
    } else {
        false
    }
}

/// Whether the expression assigns to a declared state field.
pub fn expr_modifies_jit_state(config: Option<&LowererConfig>, expr: &Expr) -> (r: bool)
    ensures
        r == modifies(config, *expr),
    decreases *expr, 0int,
{
    match &expr.kind {
        ExprKind::Assign(a) => expr_is_jit_state_place(config, &a.left) || expr_modifies_jit_state(
            config,
            &a.left,
        ) || expr_modifies_jit_state(config, &a.right),
        ExprKind::MethodCall(c) => expr_modifies_jit_state(config, &c.receiver)
            || any_modifies_jit_state(config, &c.args, 0),
        ExprKind::Block(b) => stmts_modify_jit_state(config, &b.stmts, 0),
        ExprKind::If(i) => {
            if expr_modifies_jit_state(config, &i.cond) {
                return true;
            }
            if stmts_modify_jit_state(config, &i.then_branch.stmts, 0) {
                return true;
            }
            match &i.else_branch {
                Some(x) => expr_modifies_jit_state(config, x),
                None => false,
            }
        },
        ExprKind::Call(c) => expr_modifies_jit_state(config, &c.func) || any_modifies_jit_state(
            config,
            &c.args,
            0,
        ),
        ExprKind::Binary(b) => expr_modifies_jit_state(config, &b.left) || expr_modifies_jit_state(
            config,
            &b.right,
        ),
        ExprKind::Cast(c) => expr_modifies_jit_state(config, &c.expr),
        ExprKind::Paren(x) => expr_modifies_jit_state(config, x),
        ExprKind::Reference(x) => expr_modifies_jit_state(config, x),
        ExprKind::Unary(u) => expr_modifies_jit_state(config, &u.expr),
        _ => false,
    }
}

fn any_modifies_jit_state(config: Option<&LowererConfig>, v: &Vec<Expr>, i: usize) -> (r: bool)
    requires
        i <= v.len(),
    ensures
        r == any_modifies(config, *v, i as int),
    decreases *v, v.len() - i,
{
    if i < v.len() {
        expr_modifies_jit_state(config, &v[i]) || any_modifies_jit_state(config, v, i + 1)
    } else {
        false
    }
}

/// Whether a statement assigns to a declared state field.
pub fn stmt_modifies_jit_state(config: Option<&LowererConfig>, stmt: &Stmt) -> (r: bool)
    ensures
        r == stmt_modifies(config, *stmt),
    decreases *stmt, 0int,
{
    match stmt {
        Stmt::Expr(e, _) => expr_modifies_jit_state(config, e),
        Stmt::Local(l) => match &l.init {
            Some(init) => expr_modifies_jit_state(config, &init.expr),
            None => false,
        },
        _ => false,
    }
}

fn stmts_modify_jit_state(config: Option<&LowererConfig>, v: &Vec<Stmt>, i: usize) -> (r: bool)
    requires
        i <= v.len(),
    ensures
        r == stmts_modify(config, *v, i as int),
    decreases *v, v.len() - i,
{
    if i < v.len() {
        stmt_modifies_jit_state(config, &v[i]) || stmts_modify_jit_state(config, v, i + 1)
    } else {
        false
    }
}

/// Whether the expression mentions the interpreter state.
pub open spec fn mentions_state(config: Option<&LowererConfig>, e: Expr) -> bool
    decreases e, 0int,
{
    ||| is_state_place(config, e)
    ||| is_state_root(e)
    ||| match e.kind {
        ExprKind::Assign(a) => mentions_state(config, *a.left) || mentions_state(config, *a.right),
        ExprKind::Binary(b) => mentions_state(config, *b.left) || mentions_state(config, *b.right),
        ExprKind::MethodCall(c) => mentions_state(config, *c.receiver) || any_mentions_state(
            config,
            c.args,
            0,
        ),
        ExprKind::Call(c) => mentions_state(config, *c.func) || any_mentions_state(
            config,
            c.args,
            0,
        ),
        ExprKind::Block(b) => stmts_mention_state(config, b.stmts, 0),
        ExprKind::If(i) => {
            ||| mentions_state(config, *i.cond)
            ||| stmts_mention_state(config, i.then_branch.stmts, 0)
            ||| match i.else_branch {
                Some(x) => mentions_state(config, *x),
                None => false,
            }
        },
        ExprKind::Cast(c) => mentions_state(config, *c.expr),
        ExprKind::Paren(x) => mentions_state(config, *x),
        ExprKind::Reference(x) => mentions_state(config, *x),
        ExprKind::Unary(u) => mentions_state(config, *u.expr),
        ExprKind::Try(x) => mentions_state(config, *x),
        ExprKind::Index(x) => mentions_state(config, *x.expr) || mentions_state(config, *x.index),
        ExprKind::Field(f) => mentions_state(config, *f.base),
        _ => false,
    }
}

pub open spec fn any_mentions_state(config: Option<&LowererConfig>, v: Vec<Expr>, i: int) -> bool
    decreases v, v.len() - i,
{
    if 0 <= i < v.len() {
        mentions_state(config, v[i]) || any_mentions_state(config, v, i + 1)
    } else {
        false
    }
}

pub open spec fn stmts_mention_state(config: Option<&LowererConfig>, v: Vec<Stmt>, i: int) -> bool
    decreases v, v.len() - i,
{
    if 0 <= i < v.len() {
        ||| match v[i] {
            Stmt::Expr(e, _) => mentions_state(config, e),
            Stmt::Local(l) => match l.init {
                Some(init) => mentions_state(config, *init.expr),
                None => false,
            },
            _ => false,
        }
        ||| stmts_mention_state(config, v, i + 1)
    } else {
        false
    }
}

/// Whether the expression mentions the interpreter state.
pub fn expr_has_jit_state_reference(config: Option<&LowererConfig>, expr: &Expr) -> (r: bool)
    ensures
        r == mentions_state(config, *expr),
    decreases *expr, 0int,
{
    if expr_is_jit_state_place(config, expr) {
        return true;
    }
    if expr_is_state_root(expr) {
        return true;
    }
    match &expr.kind {
        ExprKind::Assign(a) => expr_has_jit_state_reference(config, &a.left)
            || expr_has_jit_state_reference(config, &a.right),
        ExprKind::Binary(b) => expr_has_jit_state_reference(config, &b.left)
            || expr_has_jit_state_reference(config, &b.right),
        ExprKind::MethodCall(c) => expr_has_jit_state_reference(config, &c.receiver)
            || any_jit_state_reference(config, &c.args, 0),
        ExprKind::Call(c) => expr_has_jit_state_reference(config, &c.func)
            || any_jit_state_reference(config, &c.args, 0),
        ExprKind::Block(b) => stmts_touch_jit_state(config, &b.stmts, 0),
        ExprKind::If(i) => {
            if expr_has_jit_state_reference(config, &i.cond) {
                return true;
            }
            if stmts_touch_jit_state(config, &i.then_branch.stmts, 0) {
                return true;
            }
            match &i.else_branch {
                Some(x) => expr_has_jit_state_reference(config, x),
                None => false,
            }
        },
        ExprKind::Cast(c) => expr_has_jit_state_reference(config, &c.expr),
        ExprKind::Paren(x) => expr_has_jit_state_reference(config, x),
        ExprKind::Reference(x) => expr_has_jit_state_reference(config, x),
        ExprKind::Unary(u) => expr_has_jit_state_reference(config, &u.expr),
        ExprKind::Try(x) => expr_has_jit_state_reference(config, x),
        ExprKind::Index(x) => expr_has_jit_state_reference(config, &x.expr)
            || expr_has_jit_state_reference(config, &x.index),
        ExprKind::Field(f) => expr_has_jit_state_reference(config, &f.base),
        _ => false,
    }
}

fn any_jit_state_reference(config: Option<&LowererConfig>, v: &Vec<Expr>, i: usize) -> (r: bool)
    requires
        i <= v.len(),
    ensures
        r == any_mentions_state(config, *v, i as int),
    decreases *v, v.len() - i,
{
    if i < v.len() {
        expr_has_jit_state_reference(config, &v[i]) || any_jit_state_reference(config, v, i + 1)
    } else {
        false
    }
}

fn stmts_touch_jit_state(config: Option<&LowererConfig>, v: &Vec<Stmt>, i: usize) -> (r: bool)
    requires
        i <= v.len(),
    ensures
        r == stmts_mention_state(config, *v, i as int),
    decreases *v, v.len() - i,
{
    if i < v.len() {
        let here = match &v[i] {
            Stmt::Expr(e, _) => expr_has_jit_state_reference(config, e),
            Stmt::Local(l) => match &l.init {
                Some(init) => expr_has_jit_state_reference(config, &init.expr),
                None => false,
            },
            _ => false,
        };
        here || stmts_touch_jit_state(config, v, i + 1)
    } else {
        false
    }
}

// ── Names outside the trace function ─────────────────────────────────

/// Whether a character has the Unicode property `Uppercase`.
pub uninterp spec fn char_is_uppercase(c: char) -> bool;

/// `char::is_uppercase` decides by the character alone; which characters are
/// uppercase is left to Unicode.
pub assume_specification[ char::is_uppercase ](c: char) -> (r: bool)
    ensures
        r == char_is_uppercase(c),
;

/// Names that the trace function has in scope.
pub open spec fn in_trace_scope(name: Seq<char>) -> bool {
    ||| name == "program"@
    ||| name == "pc"@
    ||| name == "__op"@
    ||| name == "__sym"@
    ||| name == "__ctx"@
    ||| name == "__builder"@
}

/// Whether a name looks like a constant or a type: it starts with an uppercase
/// letter, perhaps after an underscore.
pub open spec fn looks_global(name: Seq<char>) -> bool {
    ||| name.len() > 0 && char_is_uppercase(name[0])
    ||| name.len() > 1 && name[0] == '_' && char_is_uppercase(name[1])
}

/// Whether a bare name can only be a local of the interpreter's own loop: it is
/// not in the trace function's scope, and does not look like a constant or type.
pub open spec fn foreign_name(name: Seq<char>) -> bool {
    !in_trace_scope(name) && !looks_global(name)
}

fn is_foreign_name(name: &str) -> (r: bool)
    ensures
        r == foreign_name(name@),
{
    if same_text(name, "program") || same_text(name, "pc") || same_text(name, "__op") || same_text(
        name,
        "__sym",
    ) || same_text(name, "__ctx") || same_text(name, "__builder") {
        return false;
    }
    let len: usize = vstd::string::StrSliceExecFns::unicode_len(name);
    if len == 0 {
        return true;
    }
    let first = vstd::string::StrSliceExecFns::get_char(name, 0);
    if first.is_uppercase() {
        return false;
    }
    if first != '_' || len == 1 {
        return true;
    }
    !vstd::string::StrSliceExecFns::get_char(name, 1).is_uppercase()
}

/// Whether the expression uses a local of the interpreter's own loop.
pub open spec fn uses_foreign(e: Expr) -> bool
    decreases e, 0int,
{
    match e.kind {
        ExprKind::Path(p) => match path_ident(p.path) {
            Some(s) => foreign_name(s@),
            None => false,
        },
        ExprKind::MethodCall(c) => uses_foreign(*c.receiver) || any_uses_foreign(c.args, 0),
        ExprKind::Call(c) => uses_foreign(*c.func) || any_uses_foreign(c.args, 0),
        ExprKind::Binary(b) => uses_foreign(*b.left) || uses_foreign(*b.right),
        ExprKind::Assign(a) => uses_foreign(*a.left) || uses_foreign(*a.right),
        ExprKind::Cast(c) => uses_foreign(*c.expr),
        ExprKind::Paren(x) => uses_foreign(*x),
        ExprKind::Reference(x) => uses_foreign(*x),
        ExprKind::Unary(u) => uses_foreign(*u.expr),
        ExprKind::Try(x) => uses_foreign(*x),
        ExprKind::Field(f) => uses_foreign(*f.base),
        ExprKind::Index(x) => uses_foreign(*x.expr) || uses_foreign(*x.index),
        ExprKind::Match(m) => uses_foreign(*m.expr),
        ExprKind::If(i) => {
            ||| uses_foreign(*i.cond)
            ||| stmts_use_foreign(i.then_branch.stmts, 0)
            ||| match i.else_branch {
                Some(x) => uses_foreign(*x),
                None => false,
            }
        },
        _ => false,
    }
}

pub open spec fn any_uses_foreign(v: Vec<Expr>, i: int) -> bool
    decreases v, v.len() - i,
{
    if 0 <= i < v.len() {
        uses_foreign(v[i]) || any_uses_foreign(v, i + 1)
    } else {
        false
    }
}

pub open spec fn stmts_use_foreign(v: Vec<Stmt>, i: int) -> bool
    decreases v, v.len() - i,
{
    if 0 <= i < v.len() {
        ||| match v[i] {
            Stmt::Expr(e, _) => uses_foreign(e),
            _ => false,
        }
        ||| stmts_use_foreign(v, i + 1)
    } else {
        false
    }
}

/// Whether the expression uses a local of the interpreter's own loop, which the
/// trace function does not have.
pub fn expr_references_unknown_local(expr: &Expr) -> (r: bool)
    ensures
        r == uses_foreign(*expr),
    decreases *expr, 0int,
{
    match &expr.kind {
        ExprKind::Path(p) => match p.path.get_ident() {
            Some(s) => is_foreign_name(s.as_str()),
            None => false,
        },
        ExprKind::MethodCall(c) => expr_references_unknown_local(&c.receiver)
            || any_references_unknown_local(&c.args, 0),
        ExprKind::Call(c) => expr_references_unknown_local(&c.func) || any_references_unknown_local(
            &c.args,
            0,
        ),
        ExprKind::Binary(b) => expr_references_unknown_local(&b.left)
            || expr_references_unknown_local(&b.right),
        ExprKind::Assign(a) => expr_references_unknown_local(&a.left)
            || expr_references_unknown_local(&a.right),
        ExprKind::Cast(c) => expr_references_unknown_local(&c.expr),
        ExprKind::Paren(x) => expr_references_unknown_local(x),
        ExprKind::Reference(x) => expr_references_unknown_local(x),
        ExprKind::Unary(u) => expr_references_unknown_local(&u.expr),
        ExprKind::Try(x) => expr_references_unknown_local(x),
        ExprKind::Field(f) => expr_references_unknown_local(&f.base),
        ExprKind::Index(x) => expr_references_unknown_local(&x.expr)
            || expr_references_unknown_local(&x.index),
        ExprKind::Match(m) => expr_references_unknown_local(&m.expr),
        ExprKind::If(i) => {
            if expr_references_unknown_local(&i.cond) {
                return true;
            }
            if stmts_reference_unknown_local(&i.then_branch.stmts, 0) {
                return true;
            }
            match &i.else_branch {
                Some(x) => expr_references_unknown_local(x),
                None => false,
            }
        },
        _ => false,
    }
}

fn any_references_unknown_local(v: &Vec<Expr>, i: usize) -> (r: bool)
    requires
        i <= v.len(),
    ensures
        r == any_uses_foreign(*v, i as int),
    decreases *v, v.len() - i,
{
    if i < v.len() {
        expr_references_unknown_local(&v[i]) || any_references_unknown_local(v, i + 1)
    } else {
        false
    }
}

fn stmts_reference_unknown_local(v: &Vec<Stmt>, i: usize) -> (r: bool)
    requires
        i <= v.len(),
    ensures
        r == stmts_use_foreign(*v, i as int),
    decreases *v, v.len() - i,
{
    if i < v.len() {
        let here = match &v[i] {
            Stmt::Expr(e, _) => expr_references_unknown_local(e),
            _ => false,
        };
        here || stmts_reference_unknown_local(v, i + 1)
    } else {
        false
    }
}

/// Whether the expression depends on something that the trace function cannot
/// evaluate verbatim.
pub open spec fn touches_storage(config: Option<&LowererConfig>, e: Expr) -> bool {
    mentions_state(config, e) || uses_foreign(e)
}

/// Whether the expression depends on something that the trace function cannot
/// evaluate verbatim.
pub fn expr_touches_storage(config: Option<&LowererConfig>, expr: &Expr) -> (r: bool)
    ensures
        r == touches_storage(config, *expr),
{
    expr_has_jit_state_reference(config, expr) || expr_references_unknown_local(expr)
}

} // verus!
