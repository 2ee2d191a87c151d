//! The names of the surrounding body that a dispatch arm uses.

use vstd::prelude::*;

use crate::analysis::{collect_pat_bound_idents, local_name, local_path_name, pat_names};
use crate::ast::{Arm, Expr, ExprKind, ExprPath, Pat, Stmt};
use crate::kinds::Binding;
use crate::text::{lookup, NameSet, NameTable};

verus! {

/// What was found on the way through an arm, in source order.
pub struct Found {
    /// Names that the arm binds itself. They stay hidden to its end.
    pub hidden: Set<Seq<char>>,
    /// Names that were met.
    pub met: Set<Seq<char>>,
    /// Names that are bound around the arm, with their bindings, in the order in
    /// which they are met.
    pub result: Seq<(Seq<char>, Binding)>,
}

pub type Bound = Map<Seq<char>, Binding>;

pub open spec fn see_path(bound: Bound, found: Found, p: ExprPath) -> Found {
    match local_path_name(p) {
        Some(name) => if found.hidden.contains(name@) || found.met.contains(name@) {
            found
        } else {
            Found {
                met: found.met.insert(name@),
                result: match lookup(bound, name@) {
                    Some(b) => found.result.push((name@, b)),
                    None => found.result,
                },
                ..found
            }
        },
        None => found,
    }
}

/// What is found up to the end of an expression.
pub open spec fn see(bound: Bound, found: Found, e: Expr) -> Found
    decreases e, 1int,
{
    match e.kind {
        ExprKind::Lit(_) => found,
        ExprKind::Path(p) => see_path(bound, found, p),
        ExprKind::Cast(c) => see_all(bound, see(bound, found, *c.expr), c.ty_exprs, 0),
        ExprKind::Paren(x) => see(bound, found, *x),
        ExprKind::Reference(x) => see(bound, found, *x),
        ExprKind::If(i) => {
            let f1 = see_stmts(bound, see(bound, found, *i.cond), i.then_branch.stmts, 0);
            match i.else_branch {
                Some(x) => see(bound, f1, *x),
                None => f1,
            }
        },
        ExprKind::Match(m) => see_arms(bound, see(bound, found, *m.expr), m.arms, 0),
        ExprKind::Unary(u) => see(bound, found, *u.expr),
        ExprKind::Binary(b) => see(bound, see(bound, found, *b.left), *b.right),
        ExprKind::Assign(a) => see(bound, see(bound, found, *a.left), *a.right),
        ExprKind::Call(c) => see_all(bound, see(bound, found, *c.func), c.args, 0),
        ExprKind::MethodCall(c) => see_all(bound, see(bound, found, *c.receiver), c.args, 0),
        ExprKind::Field(f) => see(bound, found, *f.base),
        ExprKind::Index(x) => see(bound, see(bound, found, *x.expr), *x.index),
        ExprKind::Block(b) => see_stmts(bound, found, b.stmts, 0),
        ExprKind::While(w) => see_stmts(bound, see(bound, found, *w.cond), w.body.stmts, 0),
        ExprKind::Loop(b) => see_stmts(bound, found, b.stmts, 0),
        ExprKind::ForLoop(v) => see_all(bound, found, v, 0),
        ExprKind::Break(v) => see_all(bound, found, v, 0),
        ExprKind::Continue => found,
        ExprKind::Try(x) => see(bound, found, *x),
        ExprKind::Macro(_) => found,
        ExprKind::Other(v) => see_all(bound, found, v, 0),
    }
}

pub open spec fn see_all(bound: Bound, found: Found, v: Vec<Expr>, i: int) -> Found
    decreases v, v.len() - i,
{
    if 0 <= i < v.len() {
        see_all(bound, see(bound, found, v[i]), v, i + 1)
    } else {
        found
    }
}

/// Patterns hold paths and expressions too.
pub open spec fn see_pat(bound: Bound, found: Found, pat: Pat) -> Found
    decreases pat, 1int,
{
    match pat {
        Pat::Ident(p) => match p.subpat {
            Some(x) => see_pat(bound, found, *x),
            None => found,
        },
        Pat::Wild => found,
        Pat::Lit(_) => found,
        Pat::Path(p) => see_path(bound, found, p.path),
        Pat::Or(v) => see_pats(bound, found, v, 0),
        Pat::TupleStruct(v) => see_pats(bound, found, v, 0),
        Pat::Tuple(v) => see_pats(bound, found, v, 0),
        Pat::Struct(v) => see_pats(bound, found, v, 0),
        Pat::Reference(x) => see_pat(bound, found, *x),
        Pat::Slice(v) => see_pats(bound, found, v, 0),
        Pat::Type(x) => see_pat(bound, found, *x),
        Pat::Paren(x) => see_pat(bound, found, *x),
        Pat::Other(v) => see_all(bound, found, v, 0),
    }
}

pub open spec fn see_pats(bound: Bound, found: Found, v: Vec<Pat>, i: int) -> Found
    decreases v, v.len() - i,
{
    if 0 <= i < v.len() {
        see_pats(bound, see_pat(bound, found, v[i]), v, i + 1)
    } else {
        found
    }
}

pub open spec fn see_arms(bound: Bound, found: Found, v: Vec<Arm>, i: int) -> Found
    decreases v, v.len() - i,
{
    if 0 <= i < v.len() {
        let f1 = see_pat(bound, found, v[i].pat);
        let f2 = match v[i].guard {
            Some(g) => see(bound, f1, *g),
            None => f1,
        };
        see_arms(bound, see(bound, f2, *v[i].body), v, i + 1)
    } else {
        found
    }
}

/// A `let` hides its names from then on.
pub open spec fn see_stmts(bound: Bound, found: Found, v: Vec<Stmt>, i: int) -> Found
    decreases v, v.len() - i,
{
    if 0 <= i < v.len() {
        let next = match v[i] {
            Stmt::Local(l) => {
                let f1 = match l.init {
                    Some(init) => {
                        let f0 = see(bound, found, *init.expr);
                        match init.diverge {
                            Some(d) => see(bound, f0, *d),
                            None => f0,
                        }
                    },
                    None => found,
                };
                Found { hidden: f1.hidden.union(pat_names(l.pat)), ..f1 }
            },
            Stmt::Expr(e, _) => see(bound, found, e),
            Stmt::Macro(_) => found,
            Stmt::Item(x) => see_all(bound, found, x, 0),
        };
        see_stmts(bound, next, v, i + 1)
    } else {
        found
    }
}

/// The names of the surrounding body that an arm uses, with their bindings.
pub open spec fn caller_locals(bound: Bound, pat: Pat, body: Expr) -> Seq<(Seq<char>, Binding)> {
    see(
        bound,
        Found { hidden: pat_names(pat), met: Set::empty(), result: seq![] },
        body,
    ).result
}

/// Names and bindings of a list of locals.
pub open spec fn local_views(v: Seq<(String, Binding)>) -> Seq<(Seq<char>, Binding)> {
    Seq::new(v.len(), |i: int| (v[i].0@, v[i].1))
}

struct Collector<'a> {
    bound: &'a NameTable<Binding>,
    hidden: NameSet,
    met: NameSet,
    result: Vec<(String, Binding)>,
}

impl<'a> Collector<'a> {
    spec fn found(&self) -> Found {
        Found { hidden: self.hidden@, met: self.met@, result: local_views(self.result@) }
    }

    fn visit_path(&mut self, p: &ExprPath)
        ensures
            final(self).bound == old(self).bound,
            final(self).found() == see_path(old(self).bound@, old(self).found(), *p),
    {
        if let Some(name) = local_name(p) {
            if !self.hidden.contains(name.as_str()) && !self.met.contains(name.as_str()) {
                self.met.insert(name.clone());
                if let Some(b) = self.bound.get(name.as_str()) {
                    self.result.push((name.clone(), b));
                    assert(local_views(self.result@) =~= local_views(old(self).result@).push(
                        (name@, b),
                    ));
                }
            }
        }
    }

    fn visit_expr(&mut self, e: &Expr)
        ensures
            final(self).bound == old(self).bound,
            final(self).found() == see(old(self).bound@, old(self).found(), *e),
        decreases *e, 1int,
    {
        match &e.kind {
            ExprKind::Lit(_) => {},
            ExprKind::Path(p) => {
                self.visit_path(p);
            },
            ExprKind::Cast(c) => {
                self.visit_expr(&c.expr);
                self.visit_exprs(&c.ty_exprs, 0);
            },
            ExprKind::Paren(x) => {
                self.visit_expr(x);
            },
            ExprKind::Reference(x) => {
                self.visit_expr(x);
            },
            ExprKind::If(i) => {
                self.visit_expr(&i.cond);
                self.visit_stmts(&i.then_branch.stmts, 0);
                if let Some(x) = &i.else_branch {
                    self.visit_expr(x);
                }
            },
            ExprKind::Match(m) => {
                self.visit_expr(&m.expr);
                self.visit_arms(&m.arms, 0);
            },
            ExprKind::Unary(u) => {
                self.visit_expr(&u.expr);
            },
            ExprKind::Binary(b) => {
                self.visit_expr(&b.left);
                self.visit_expr(&b.right);
            },
            ExprKind::Assign(a) => {
                self.visit_expr(&a.left);
                self.visit_expr(&a.right);
            },
            ExprKind::Call(c) => {
                self.visit_expr(&c.func);
                self.visit_exprs(&c.args, 0);
            },
            ExprKind::MethodCall(c) => {
                self.visit_expr(&c.receiver);
                self.visit_exprs(&c.args, 0);
            },
            ExprKind::Field(f) => {
                self.visit_expr(&f.base);
            },
            ExprKind::Index(x) => {
                self.visit_expr(&x.expr);
                self.visit_expr(&x.index);
            },
            ExprKind::Block(b) => {
                self.visit_stmts(&b.stmts, 0);
            },
            ExprKind::While(w) => {
                self.visit_expr(&w.cond);
                self.visit_stmts(&w.body.stmts, 0);
            },
            ExprKind::Loop(b) => {
                self.visit_stmts(&b.stmts, 0);
            },
            ExprKind::ForLoop(v) => {
                self.visit_exprs(v, 0);
            },
            ExprKind::Break(v) => {
                self.visit_exprs(v, 0);
            },
            ExprKind::Continue => {},
            ExprKind::Try(x) => {
                self.visit_expr(x);
            },
            ExprKind::Macro(_) => {},
            ExprKind::Other(v) => {
                self.visit_exprs(v, 0);
            },
        }
    }

    fn visit_exprs(&mut self, v: &Vec<Expr>, i: usize)
        requires
            i <= v.len(),
        ensures
            final(self).bound == old(self).bound,
            final(self).found() == see_all(old(self).bound@, old(self).found(), *v, i as int),
        decreases *v, v.len() - i,
    {
        if i < v.len() {
            self.visit_expr(&v[i]);
            self.visit_exprs(v, i + 1);
        }
    }

    fn visit_pat(&mut self, pat: &Pat)
        ensures
            final(self).bound == old(self).bound,
            final(self).found() == see_pat(old(self).bound@, old(self).found(), *pat),
        decreases *pat, 1int,
    {
        match pat {
            Pat::Ident(p) => {
                if let Some(x) = &p.subpat {
                    self.visit_pat(x);
                }
            },
            Pat::Wild => {},
            Pat::Lit(_) => {},
            Pat::Path(p) => {
                self.visit_path(&p.path);
            },
            Pat::Or(v) => {
                self.visit_pats(v, 0);
            },
            Pat::TupleStruct(v) => {
                self.visit_pats(v, 0);
            },
            Pat::Tuple(v) => {
                self.visit_pats(v, 0);
            },
            Pat::Struct(v) => {
                self.visit_pats(v, 0);
            },
            Pat::Reference(x) => {
                self.visit_pat(x);
            },
            Pat::Slice(v) => {
                self.visit_pats(v, 0);
            },
            Pat::Type(x) => {
                self.visit_pat(x);
            },
            Pat::Paren(x) => {
                self.visit_pat(x);
            },
            Pat::Other(v) => {
                self.visit_exprs(v, 0);
            },
        }
    }

    fn visit_pats(&mut self, v: &Vec<Pat>, i: usize)
        requires
            i <= v.len(),
        ensures
            final(self).bound == old(self).bound,
            final(self).found() == see_pats(old(self).bound@, old(self).found(), *v, i as int),
        decreases *v, v.len() - i,
    {
        if i < v.len() {
            self.visit_pat(&v[i]);
            self.visit_pats(v, i + 1);
        }
    }

    fn visit_arms(&mut self, v: &Vec<Arm>, i: usize)
        requires
            i <= v.len(),
        ensures
            final(self).bound == old(self).bound,
            final(self).found() == see_arms(old(self).bound@, old(self).found(), *v, i as int),
        decreases *v, v.len() - i,
    {
        if i < v.len() {
            let arm = &v[i];
            self.visit_pat(&arm.pat);
            if let Some(g) = &arm.guard {
                self.visit_expr(g);
            }
            self.visit_expr(&arm.body);
            self.visit_arms(v, i + 1);
        }
    }

    fn visit_stmts(&mut self, v: &Vec<Stmt>, i: usize)
        requires
            i <= v.len(),
        ensures
            final(self).bound == old(self).bound,
            final(self).found() == see_stmts(old(self).bound@, old(self).found(), *v, i as int),
        decreases *v, v.len() - i,
    {
        if i < v.len() {
            match &v[i] {
                Stmt::Local(l) => {
                    if let Some(init) = &l.init {
                        self.visit_expr(&init.expr);
                        if let Some(d) = &init.diverge {
                            self.visit_expr(d);
                        }
                    }
                    collect_pat_bound_idents(&l.pat, &mut self.hidden);
                },
                Stmt::Expr(e, _) => {
                    self.visit_expr(e);
                },
                Stmt::Macro(_) => {},
                Stmt::Item(x) => {
                    self.visit_exprs(x, 0);
                },
            }
            self.visit_stmts(v, i + 1);
        }
    }
}

/// The names of the surrounding body that a dispatch arm uses, with their
/// bindings, in the order in which they are met. What the arm's pattern or a
/// `let` in the arm binds is the arm's own.
pub fn collect_arm_caller_locals(
    arm_body: &Expr,
    arm_pat: &Pat,
    parent_bindings: &NameTable<Binding>,
) -> (r: Vec<(String, Binding)>)
    ensures
        local_views(r@) == caller_locals(parent_bindings@, *arm_pat, *arm_body),
{
    let mut hidden = NameSet::new();
    collect_pat_bound_idents(arm_pat, &mut hidden);
    assert(hidden@ =~= pat_names(*arm_pat));
    let mut collector = Collector {
        bound: parent_bindings,
        hidden,
        met: NameSet::new(),
        result: Vec::new(),
    };
    assert(local_views(collector.result@) =~= seq![]);
    collector.visit_expr(arm_body);
    collector.result
}

// ── Laws ─────────────────────────────────────────────────────────────

/// Whether what was found so far is in order: the names are different, bound as
/// noted, met, and not among the `outer` hidden names, which stay hidden.
#[verifier::opaque]
pub open spec fn tidy(bound: Bound, outer: Set<Seq<char>>, found: Found) -> bool {
    &&& outer.subset_of(found.hidden)
    &&& forall|i: int|
        0 <= i < found.result.len() ==> {
            let (name, b) = #[trigger] found.result[i];
            lookup(bound, name) == Some(b) && found.met.contains(name) && !outer.contains(name)
        }
    &&& forall|i: int, j: int|
        0 <= i < j < found.result.len() ==> (#[trigger] found.result[i]).0 != (
        #[trigger] found.result[j]).0
}

proof fn tidy_see_path(bound: Bound, outer: Set<Seq<char>>, found: Found, p: ExprPath)
    requires
        tidy(bound, outer, found),
    ensures
        tidy(bound, outer, see_path(bound, found, p)),
{
    reveal(tidy);
    let t = see_path(bound, found, p);
    assert forall|i: int, j: int| 0 <= i < j < t.result.len() implies (#[trigger] t.result[i]).0 != (
    #[trigger] t.result[j]).0 by {
        if j == found.result.len() {
            assert(found.met.contains(found.result[i].0));
        } else {
            assert(t.result[i] == found.result[i] && t.result[j] == found.result[j]);
        }
    }
    assert forall|i: int| 0 <= i < t.result.len() implies {
        let (name, b) = #[trigger] t.result[i];
        lookup(bound, name) == Some(b) && t.met.contains(name) && !outer.contains(name)
    } by {
        if i < found.result.len() {
            assert(t.result[i] == found.result[i]);
        }
    }
}

proof fn tidy_hiding(bound: Bound, outer: Set<Seq<char>>, found: Found, names: Set<Seq<char>>)
    requires
        tidy(bound, outer, found),
    ensures
        tidy(bound, outer, Found { hidden: found.hidden.union(names), ..found }),
{
    reveal(tidy);
    let t = Found { hidden: found.hidden.union(names), ..found };
    assert forall|i: int| 0 <= i < t.result.len() implies {
        let (name, b) = #[trigger] t.result[i];
        lookup(bound, name) == Some(b) && t.met.contains(name) && !outer.contains(name)
    } by {
        assert(t.result[i] == found.result[i]);
    }
}

proof fn tidy_see(bound: Bound, outer: Set<Seq<char>>, found: Found, e: Expr)
    requires
        tidy(bound, outer, found),
    ensures
        tidy(bound, outer, see(bound, found, e)),
    decreases e, 1int,
{
    match e.kind {
        ExprKind::Lit(_) => {},
        ExprKind::Path(p) => {
            tidy_see_path(bound, outer, found, p);
        },
        ExprKind::Cast(c) => {
            tidy_see(bound, outer, found, *c.expr);
            tidy_see_all(bound, outer, see(bound, found, *c.expr), c.ty_exprs, 0);
        },
        ExprKind::Paren(x) => {
            tidy_see(bound, outer, found, *x);
        },
        ExprKind::Reference(x) => {
            tidy_see(bound, outer, found, *x);
        },
        ExprKind::If(i) => {
            tidy_see(bound, outer, found, *i.cond);
            tidy_see_stmts(bound, outer, see(bound, found, *i.cond), i.then_branch.stmts, 0);
            if let Some(x) = i.else_branch {
                let f1 = see_stmts(bound, see(bound, found, *i.cond), i.then_branch.stmts, 0);
                tidy_see(bound, outer, f1, *x);
            }
        },
        ExprKind::Match(m) => {
            tidy_see(bound, outer, found, *m.expr);
            tidy_see_arms(bound, outer, see(bound, found, *m.expr), m.arms, 0);
        },
        ExprKind::Unary(u) => {
            tidy_see(bound, outer, found, *u.expr);
        },
        ExprKind::Binary(b) => {
            tidy_see(bound, outer, found, *b.left);
            tidy_see(bound, outer, see(bound, found, *b.left), *b.right);
        },
        ExprKind::Assign(a) => {
            tidy_see(bound, outer, found, *a.left);
            tidy_see(bound, outer, see(bound, found, *a.left), *a.right);
        },
        ExprKind::Call(c) => {
            tidy_see(bound, outer, found, *c.func);
            tidy_see_all(bound, outer, see(bound, found, *c.func), c.args, 0);
        },
        ExprKind::MethodCall(c) => {
            tidy_see(bound, outer, found, *c.receiver);
            tidy_see_all(bound, outer, see(bound, found, *c.receiver), c.args, 0);
        },
        ExprKind::Field(f) => {
            tidy_see(bound, outer, found, *f.base);
        },
        ExprKind::Index(x) => {
            tidy_see(bound, outer, found, *x.expr);
            tidy_see(bound, outer, see(bound, found, *x.expr), *x.index);
        },
        ExprKind::Block(b) => {
            tidy_see_stmts(bound, outer, found, b.stmts, 0);
        },
        ExprKind::While(w) => {
            tidy_see(bound, outer, found, *w.cond);
            tidy_see_stmts(bound, outer, see(bound, found, *w.cond), w.body.stmts, 0);
        },
        ExprKind::Loop(b) => {
            tidy_see_stmts(bound, outer, found, b.stmts, 0);
        },
        ExprKind::ForLoop(v) => {
            tidy_see_all(bound, outer, found, v, 0);
        },
        ExprKind::Break(v) => {
            tidy_see_all(bound, outer, found, v, 0);
        },
        ExprKind::Continue => {},
        ExprKind::Try(x) => {
            tidy_see(bound, outer, found, *x);
        },
        ExprKind::Macro(_) => {},
        ExprKind::Other(v) => {
            tidy_see_all(bound, outer, found, v, 0);
        },
    }
}

proof fn tidy_see_all(bound: Bound, outer: Set<Seq<char>>, found: Found, v: Vec<Expr>, i: int)
    requires
        tidy(bound, outer, found),
    ensures
        tidy(bound, outer, see_all(bound, found, v, i)),
    decreases v, v.len() - i,
{
    if 0 <= i < v.len() {
        tidy_see(bound, outer, found, v[i]);
        tidy_see_all(bound, outer, see(bound, found, v[i]), v, i + 1);
    }
}

proof fn tidy_see_pat(bound: Bound, outer: Set<Seq<char>>, found: Found, pat: Pat)
    requires
        tidy(bound, outer, found),
    ensures
        tidy(bound, outer, see_pat(bound, found, pat)),
    decreases pat, 1int,
{
    match pat {
        Pat::Ident(p) => {
            if let Some(x) = p.subpat {
                tidy_see_pat(bound, outer, found, *x);
            }
        },
        Pat::Wild => {},
        Pat::Lit(_) => {},
        Pat::Path(p) => tidy_see_path(bound, outer, found, p.path),
        Pat::Or(v) => tidy_see_pats(bound, outer, found, v, 0),
        Pat::TupleStruct(v) => tidy_see_pats(bound, outer, found, v, 0),
        Pat::Tuple(v) => tidy_see_pats(bound, outer, found, v, 0),
        Pat::Struct(v) => tidy_see_pats(bound, outer, found, v, 0),
        Pat::Reference(x) => tidy_see_pat(bound, outer, found, *x),
        Pat::Slice(v) => tidy_see_pats(bound, outer, found, v, 0),
        Pat::Type(x) => tidy_see_pat(bound, outer, found, *x),
        Pat::Paren(x) => tidy_see_pat(bound, outer, found, *x),
        Pat::Other(v) => tidy_see_all(bound, outer, found, v, 0),
    }
}

proof fn tidy_see_pats(bound: Bound, outer: Set<Seq<char>>, found: Found, v: Vec<Pat>, i: int)
    requires
        tidy(bound, outer, found),
    ensures
        tidy(bound, outer, see_pats(bound, found, v, i)),
    decreases v, v.len() - i,
{
    if 0 <= i < v.len() {
        tidy_see_pat(bound, outer, found, v[i]);
        tidy_see_pats(bound, outer, see_pat(bound, found, v[i]), v, i + 1);
    }
}

proof fn tidy_see_arms(bound: Bound, outer: Set<Seq<char>>, found: Found, v: Vec<Arm>, i: int)
    requires
        tidy(bound, outer, found),
    ensures
        tidy(bound, outer, see_arms(bound, found, v, i)),
    decreases v, v.len() - i,
{
    if 0 <= i < v.len() {
        assert(decreases_to!(v => v[i]));
        tidy_see_pat(bound, outer, found, v[i].pat);
        let f1 = see_pat(bound, found, v[i].pat);
        let f2 = match v[i].guard {
            Some(g) => see(bound, f1, *g),
            None => f1,
        };
        if let Some(g) = v[i].guard {
            tidy_see(bound, outer, f1, *g);
        }
        tidy_see(bound, outer, f2, *v[i].body);
        tidy_see_arms(bound, outer, see(bound, f2, *v[i].body), v, i + 1);
    }
}

proof fn tidy_see_stmts(bound: Bound, outer: Set<Seq<char>>, found: Found, v: Vec<Stmt>, i: int)
    requires
        tidy(bound, outer, found),
    ensures
        tidy(bound, outer, see_stmts(bound, found, v, i)),
    decreases v, v.len() - i,
{
    if 0 <= i < v.len() {
        assert(decreases_to!(v => v[i]));
        match v[i] {
            Stmt::Local(l) => {
                let f1 = match l.init {
                    Some(init) => {
                        let f0 = see(bound, found, *init.expr);
                        match init.diverge {
                            Some(d) => see(bound, f0, *d),
                            None => f0,
                        }
                    },
                    None => found,
                };
                if let Some(init) = l.init {
                    tidy_see(bound, outer, found, *init.expr);
                    if let Some(d) = init.diverge {
                        tidy_see(bound, outer, see(bound, found, *init.expr), *d);
                    }
                }
                tidy_hiding(bound, outer, f1, pat_names(l.pat));
                let next = Found { hidden: f1.hidden.union(pat_names(l.pat)), ..f1 };
                tidy_see_stmts(bound, outer, next, v, i + 1);
            },
            Stmt::Expr(e, _) => {
                tidy_see(bound, outer, found, e);
                tidy_see_stmts(bound, outer, see(bound, found, e), v, i + 1);
            },
            Stmt::Macro(_) => {
                tidy_see_stmts(bound, outer, found, v, i + 1);
            },
            Stmt::Item(x) => {
                tidy_see_all(bound, outer, found, x, 0);
                tidy_see_stmts(bound, outer, see_all(bound, found, x, 0), v, i + 1);
            },
        }
    }
}

/// The locals of an arm are different names of the surrounding body, each with its
/// binding there, and none that the arm's pattern binds.
pub proof fn law_caller_locals_are_bound_and_distinct(
    bound: Bound,
    pat: Pat,
    body: Expr,
    i: int,
)
    requires
        0 <= i < caller_locals(bound, pat, body).len(),
    ensures
        ({
            let locals = caller_locals(bound, pat, body);
            &&& lookup(bound, locals[i].0) == Some(locals[i].1)
            &&& !pat_names(pat).contains(locals[i].0)
            &&& forall|j: int|
                0 <= j < locals.len() && j != i ==> (#[trigger] locals[j]).0 != locals[i].0
        }),
{
    let start = Found { hidden: pat_names(pat), met: Set::empty(), result: seq![] };
    reveal(tidy);
    assert(tidy(bound, pat_names(pat), start));
    tidy_see(bound, pat_names(pat), start, body);
    let locals = caller_locals(bound, pat, body);
    let (name, b) = locals[i];
    assert forall|j: int| 0 <= j < locals.len() && j != i implies (#[trigger] locals[j]).0
        != locals[i].0 by {
        if j < i {
            assert(locals[j].0 != locals[i].0);
        } else {
            assert(locals[i].0 != locals[j].0);
        }
    }
}

} // verus!
