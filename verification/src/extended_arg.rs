//! The inner loop of a dispatch loop that collects an extended argument.

use vstd::prelude::*;

use crate::ast::{
    BinOp, Block, Expr, expr_int_literal_value, expr_single_ident, ExprKind, ExprWhile, int_literal,
    Local, path_ends_with, path_ident, path_last_is, single_ident, single_ident_is, Stmt,
    unwrap_expr_paren, without_parens,
};
use crate::fetch::{
    combine_const, grows_combine_const, grows_index_register, grows_load_byte, grows_load_const,
    grows_load_named, grows_opcode_fetch, index_register, is_single_ident, load_byte, load_const,
    load_named, opcode_fetch, program_index, program_index_of, unwrap_cast, without_cast,
};
use crate::growth::{
    grows, grows_aux, grows_bind, grows_branch, grows_further, grows_jump, grows_label_def,
    grows_label_taken, grows_labels, grows_reg_taken, grows_self, grows_terminal, label_between,
    label_def_labels,
};
use crate::kinds::{Binding, BindingKind};
use crate::lowerer::{int_reg, int_slot, Lowerer, LowerState, no_slots, two_slots};
use crate::ops::{IntOpcode, Op};
use crate::patterns::{let_name, pat_bound_ident_name};
use crate::text::{lookup, NameTable};

verus! {

pub type Bindings = Map<Seq<char>, Binding>;

/// Registers of outer variables that inner names stand for.
pub type Aliases = Map<Seq<char>, u16>;

/// The register of a name that is bound to an integer.
pub open spec fn int_binding(bindings: Bindings, name: Seq<char>) -> Option<u16> {
    match lookup(bindings, name) {
        Some(b) => if b.kind is Int {
            Some(b.reg)
        } else {
            None
        },
        None => None,
    }
}

impl<'a> Lowerer<'a> {
    /// The register of a name that is bound to an integer.
    pub fn int_binding(&self, name: &str) -> (r: Option<u16>)
        ensures
            r == int_binding(self@.bindings, name@),
    {
        match self.bindings.get(name) {
            Some(b) => if b.kind == BindingKind::Int {
                Some(b.reg)
            } else {
                None
            },
            None => None,
        }
    }
}

// ── Shapes ───────────────────────────────────────────────────────────

/// The `while` loop that a statement is.
pub fn stmt_as_inner_while(stmt: &Stmt) -> (r: Option<&ExprWhile>)
    ensures
        match r {
            Some(w) => inner_loop_of(*stmt) == Some(*w),
            None => inner_loop_of(*stmt) is None,
        },
{
    match stmt {
        Stmt::Expr(e, _) => match &e.kind {
            ExprKind::While(w) => Some(w),
            _ => None,
        },
        _ => None,
    }
}

/// The `while` loop that a statement is.
pub open spec fn inner_loop_of(stmt: Stmt) -> Option<ExprWhile> {
    match stmt {
        Stmt::Expr(e, _) => match e.kind {
            ExprKind::While(w) => Some(w),
            _ => None,
        },
        _ => None,
    }
}

/// Whether the condition compares two names for equality.
pub open spec fn compares_names(cond: Expr) -> bool {
    match without_parens(cond).kind {
        ExprKind::Binary(b) => b.op is Eq && single_ident(*b.left) is Some && single_ident(
            *b.right,
        ) is Some,
        _ => false,
    }
}

/// Whether the loop's condition compares two names for equality.
pub fn is_recognized_extended_arg_while(while_expr: &ExprWhile) -> (r: bool)
    ensures
        r == compares_names(*while_expr.cond),
{
    match &unwrap_expr_paren(&while_expr.cond).kind {
        ExprKind::Binary(b) => b.op == BinOp::Eq && expr_single_ident(&b.left).is_some()
            && expr_single_ident(&b.right).is_some(),
        _ => false,
    }
}

/// The bare identifier that an expression is.
pub open spec fn bare_ident(e: Expr) -> Option<String> {
    match e.kind {
        ExprKind::Path(p) => path_ident(p.path),
        _ => None,
    }
}

pub fn expr_bare_ident(e: &Expr) -> (r: Option<&String>)
    ensures
        match r {
            Some(s) => bare_ident(*e) == Some(*s),
            None => bare_ident(*e) is None,
        },
{
    match &e.kind {
        ExprKind::Path(p) => p.path.get_ident(),
        _ => None,
    }
}

/// Of the two names that are compared, the register of the one that is bound to
/// an integer, and the other one, which is a constant. Neither may be both.
#[verifier::opaque]
pub open spec fn local_and_const(bindings: Bindings, cond: Expr) -> Option<(u16, String)> {
    match without_parens(cond).kind {
        ExprKind::Binary(b) => match (bare_ident(*b.left), bare_ident(*b.right)) {
            (Some(l), Some(r)) => match (int_binding(bindings, l@), int_binding(bindings, r@)) {
                (Some(reg), None) => Some((reg, r)),
                (None, Some(reg)) => Some((reg, l)),
                _ => None,
            },
            _ => None,
        },
        _ => None,
    }
}

/// Both names of `left = right`.
pub open spec fn name_assign(stmt: Stmt) -> Option<(Seq<char>, Seq<char>)> {
    match stmt {
        Stmt::Expr(e, _) => match e.kind {
            ExprKind::Assign(a) => match (single_ident(*a.left), single_ident(*a.right)) {
                (Some(l), Some(r)) => Some((l@, r@)),
                _ => None,
            },
            _ => None,
        },
        _ => None,
    }
}

/// Both names of `left = right`.
pub fn match_simple_ident_assign(stmt: &Stmt) -> (r: Option<(&String, &String)>)
    ensures
        match r {
            Some((l, x)) => name_assign(*stmt) == Some((l@, x@)),
            None => name_assign(*stmt) is None,
        },
{
    match stmt {
        Stmt::Expr(e, _) => match &e.kind {
            ExprKind::Assign(a) => match (expr_single_ident(&a.left), expr_single_ident(&a.right)) {
                (Some(l), Some(x)) => Some((l, x)),
                _ => None,
            },
            _ => None,
        },
        _ => None,
    }
}

/// Where an inner name is assigned to an integer variable in one of the first
/// `n` statements, the name stands for that variable.
pub open spec fn aliases(bindings: Bindings, stmts: Seq<Stmt>, n: int) -> Aliases
    decreases n,
{
    if 0 < n <= stmts.len() {
        let before = aliases(bindings, stmts, n - 1);
        match name_assign(stmts[n - 1]) {
            Some((l, r)) => match int_binding(bindings, l) {
                Some(reg) => before.insert(r, reg),
                None => before,
            },
            None => before,
        }
    } else {
        Map::empty()
    }
}

/// Whether the block is one `panic!`.
pub open spec fn panics(block: Block) -> bool {
    block.stmts@.len() == 1 && match block.stmts@[0] {
        Stmt::Macro(path) => path_ends_with(path, "panic"@),
        Stmt::Expr(e, _) => match e.kind {
            ExprKind::Macro(m) => path_ends_with(m.path, "panic"@),
            _ => false,
        },
        _ => false,
    }
}

/// Whether the block is one `panic!`.
pub fn block_is_panic_only(block: &Block) -> (r: bool)
    ensures
        r == panics(*block),
{
    if block.stmts.len() != 1 {
        return false;
    }
    match &block.stmts[0] {
        Stmt::Macro(path) => path_last_is(path, "panic"),
        Stmt::Expr(e, _) => match &e.kind {
            ExprKind::Macro(m) => path_last_is(&m.path, "panic"),
            _ => false,
        },
        _ => false,
    }
}

/// Local and constant of `if local < CONSTANT { panic!(..) }`: the register of
/// an integer variable and the name of what is no variable.
#[verifier::opaque]
pub open spec fn range_check(bindings: Bindings, stmt: Stmt) -> Option<(u16, String)> {
    match stmt {
        Stmt::Expr(e, _) => match e.kind {
            ExprKind::If(i) => match without_parens(*i.cond).kind {
                ExprKind::Binary(b) => match (single_ident(*b.left), bare_ident(*b.right)) {
                    (Some(l), Some(r)) => if b.op is Lt && i.else_branch is None
                        && !bindings.contains_key(r@) && single_ident(*b.right) is Some && panics(
                        i.then_branch,
                    ) {
                        match int_binding(bindings, l@) {
                            Some(reg) => Some((reg, r)),
                            None => None,
                        }
                    } else {
                        None
                    },
                    _ => None,
                },
                _ => None,
            },
            _ => None,
        },
        _ => None,
    }
}

/// The factor of `name * factor`, where it is positive.
pub open spec fn scaled(e: Expr, name: Seq<char>) -> Option<i64> {
    match without_parens(e).kind {
        ExprKind::Binary(b) => if b.op is Mul && single_ident_is(*b.left, name) {
            match int_literal(*b.right) {
                Some(v) => if v > 0 {
                    Some(v)
                } else {
                    None
                },
                None => None,
            }
        } else {
            None
        },
        _ => None,
    }
}

/// Registers and factor of `oparg = (oparg * factor) | arg`.
#[verifier::opaque]
pub open spec fn merge(bindings: Bindings, stmt: Stmt) -> Option<(u16, i64, u16)> {
    match stmt {
        Stmt::Expr(e, _) => match e.kind {
            ExprKind::Assign(a) => match (single_ident(*a.left), without_parens(*a.right).kind) {
                (Some(name), ExprKind::Binary(or)) => if or.op is BitOr {
                    match (
                        int_binding(bindings, name@),
                        scaled(*or.left, name@),
                        single_ident(without_cast(without_parens(*or.right))),
                    ) {
                        (Some(oparg), Some(factor), Some(arg)) => match int_binding(
                            bindings,
                            arg@,
                        ) {
                            Some(reg) => Some((oparg, factor, reg)),
                            None => None,
                        },
                        _ => None,
                    }
                } else {
                    None
                },
                _ => None,
            },
            _ => None,
        },
        _ => None,
    }
}

fn scale_of(e: &Expr, name: &str) -> (r: Option<i64>)
    ensures
        r == scaled(*e, name@),
{
    match &unwrap_expr_paren(e).kind {
        ExprKind::Binary(b) => if b.op == BinOp::Mul && is_single_ident(&b.left, name) {
            match expr_int_literal_value(&b.right) {
                Some(v) => if v > 0 {
                    Some(v)
                } else {
                    None
                },
                None => None,
            }
        } else {
            None
        },
        _ => None,
    }
}

// ── Statements of the loop ───────────────────────────────────────────

/// `let name = program[index]`, where `name` stands for an outer variable.
#[verifier::opaque]
pub open spec fn fetch_alias<'a>(s: LowerState<'a>, stmt: Stmt, known: Aliases) -> (
    LowerState<'a>,
    bool,
) {
    match stmt {
        Stmt::Local(l) => match (let_name(l.pat), program_index(l), lookup(s.bindings, "program"@)) {
            (Some(name), Some(idx), Some(program)) => match lookup(known, name@) {
                Some(dst) => match index_register(s, idx) {
                    (s1, Some(index)) => (
                        load_byte(s1, dst, program.reg, index).bind(
                            name@,
                            Binding::fixed(BindingKind::Int, dst),
                        ),
                        true,
                    ),
                    (s1, None) => (s1, false),
                },
                None => (s, false),
            },
            _ => (s, false),
        },
        _ => (s, false),
    }
}

/// `if local < CONSTANT { panic!(..) }` aborts the trace.
#[verifier::opaque]
pub open spec fn check_range<'a>(s: LowerState<'a>, stmt: &'a Stmt) -> (LowerState<'a>, bool) {
    match range_check(s.bindings, *stmt) {
        Some((local, name)) => {
            let c = s.next_reg;
            let s1 = load_named(s.reg_taken(), c, &name);
            let ok = s1.fresh_label();
            (
                s1.label_taken().aux(Op::NewLabel(ok)).branch(
                    seq![int_slot(local), int_slot(c)],
                    ok,
                    Op::GotoIfNotIntLt(local, c, ok),
                ).terminal(seq![], Op::Abort).label_def(ok),
                true,
            )
        },
        None => (s, false),
    }
}

/// `oparg = (oparg * factor) | arg`.
#[verifier::opaque]
pub open spec fn merge_arg<'a>(s: LowerState<'a>, stmt: Stmt) -> (LowerState<'a>, bool) {
    match merge(s.bindings, stmt) {
        Some((oparg, factor, arg)) => {
            let c = s.next_reg;
            let s1 = load_const(s.reg_taken(), c, factor);
            (
                combine_const(
                    combine_const(s1, oparg, IntOpcode::IntMul, oparg, c),
                    oparg,
                    IntOpcode::IntOr,
                    oparg,
                    arg,
                ),
                true,
            )
        },
        None => (s, false),
    }
}

/// Whether the statement assigns an inner name to the variable that it stands
/// for already.
pub open spec fn is_alias_assign(stmt: Stmt, known: Aliases) -> bool {
    match name_assign(stmt) {
        Some((_, r)) => known.contains_key(r),
        None => false,
    }
}

/// One statement of the loop's body.
#[verifier::opaque]
pub open spec fn loop_step<'a>(s: LowerState<'a>, stmt: &'a Stmt, known: Aliases) -> (
    LowerState<'a>,
    bool,
) {
    let (s1, r1) = fetch_alias(s, *stmt, known);
    if r1 {
        (s1, true)
    } else {
        let (s2, r2) = opcode_fetch(s1, stmt);
        if r2 {
            (s2, true)
        } else {
            let (s3, r3) = check_range(s2, stmt);
            if r3 {
                (s3, true)
            } else {
                let (s4, r4) = merge_arg(s3, *stmt);
                if r4 {
                    (s4, true)
                } else {
                    (s4, is_alias_assign(*stmt, known))
                }
            }
        }
    }
}

/// The statements of the loop's body from the `i`th on.
pub open spec fn loop_steps<'a>(s: LowerState<'a>, stmts: &'a Vec<Stmt>, i: int, known: Aliases) -> (
    LowerState<'a>,
    bool,
)
    decreases stmts.len() - i,
{
    if 0 <= i < stmts.len() {
        match loop_step(s, &stmts[i], known) {
            (s1, true) => loop_steps(s1, stmts, i + 1, known),
            (s1, false) => (s1, false),
        }
    } else {
        (s, true)
    }
}

/// The loop: its constant is loaded once, and its condition is tested before
/// each round.
#[verifier::opaque]
pub open spec fn inner_while<'a>(s: LowerState<'a>, w: &'a ExprWhile) -> (LowerState<'a>, bool) {
    match local_and_const(s.bindings, *w.cond) {
        Some((opcode, name)) => {
            let known = aliases(s.bindings, w.body.stmts@, w.body.stmts@.len() as int);
            let c = s.next_reg;
            let s1 = load_named(s.reg_taken(), c, &name);
            let top = s1.fresh_label();
            let after = s1.label_taken().fresh_label();
            let s2 = s1.label_taken().label_taken().aux(Op::NewLabel(top)).aux(
                Op::NewLabel(after),
            ).label_def(top).branch(
                seq![int_slot(opcode), int_slot(c)],
                after,
                Op::GotoIfNotIntEq(opcode, c, after),
            );
            match loop_steps(s2, &w.body.stmts, 0, known) {
                (s3, true) => (s3.jump(top).label_def(after), true),
                (s3, false) => (s3, false),
            }
        },
        None => (s, false),
    }
}

impl<'a> Lowerer<'a> {
    /// The register of the bound name and the other name of a comparison.
    pub fn pick_local_and_const_idents(&self, cond: &'a Expr) -> (r: Option<(u16, &'a String)>)
        ensures
            match r {
                Some((reg, name)) => local_and_const(self@.bindings, *cond) == Some((reg, *name)),
                None => local_and_const(self@.bindings, *cond) is None,
            },
    {
        proof {
            reveal(local_and_const);
        }
        match &unwrap_expr_paren(cond).kind {
            ExprKind::Binary(b) => match (expr_bare_ident(&b.left), expr_bare_ident(&b.right)) {
                (Some(l), Some(r)) => match (
                    self.int_binding(l.as_str()),
                    self.int_binding(r.as_str()),
                ) {
                    (Some(reg), None) => Some((reg, r)),
                    (None, Some(reg)) => Some((reg, l)),
                    _ => None,
                },
                _ => None,
            },
            _ => None,
        }
    }

    /// `let name = program[index]`, where `name` stands for an outer variable.
    pub fn try_lower_inner_byte_fetch(
        &mut self,
        stmt: &'a Stmt,
        inner_alias: &NameTable<u16>,
    ) -> (r: bool)
        ensures
            final(self)@ == fetch_alias(old(self)@, *stmt, inner_alias@).0,
            r == fetch_alias(old(self)@, *stmt, inner_alias@).1,
    {
        proof {
            reveal(fetch_alias);
        }
        let local = match stmt {
            Stmt::Local(l) => l,
            _ => {
                return false;
            },
        };
        let name = match pat_bound_ident_name(&local.pat) {
            Some(name) => name,
            None => {
                return false;
            },
        };
        let dst: u16 = match inner_alias.get(name.as_str()) {
            Some(dst) => dst,
            None => {
                return false;
            },
        };
        let idx = match program_index_of(local) {
            Some(idx) => idx,
            None => {
                return false;
            },
        };
        let program = match self.bindings.get("program") {
            Some(program) => program,
            None => {
                return false;
            },
        };
        match self.lower_array_index_expr(idx) {
            Some(index) => {
                self.load_byte(dst, program.reg, index);
                self.bind(name.clone(), Binding::new_fixed(BindingKind::Int, dst));
                true
            },
            None => false,
        }
    }

    fn range_check_of(&self, stmt: &'a Stmt) -> (r: Option<(u16, &'a String)>)
        ensures
            match r {
                Some((reg, name)) => range_check(self@.bindings, *stmt) == Some((reg, *name)),
                None => range_check(self@.bindings, *stmt) is None,
            },
    {
        proof {
            reveal(range_check);
        }
        let i = match stmt {
            Stmt::Expr(e, _) => match &e.kind {
                ExprKind::If(i) => i,
                _ => {
                    return None;
                },
            },
            _ => {
                return None;
            },
        };
        let b = match &unwrap_expr_paren(&i.cond).kind {
            ExprKind::Binary(b) => b,
            _ => {
                return None;
            },
        };
        if i.else_branch.is_some() || b.op != BinOp::Lt || expr_single_ident(&b.right).is_none() {
            return None;
        }
        let name = match expr_bare_ident(&b.right) {
            Some(name) => name,
            None => {
                return None;
            },
        };
        let local = match expr_single_ident(&b.left) {
            Some(local) => local,
            None => {
                return None;
            },
        };
        if self.bindings.contains_key(name.as_str()) || !block_is_panic_only(&i.then_branch) {
            return None;
        }
        match self.int_binding(local.as_str()) {
            Some(reg) => Some((reg, name)),
            None => None,
        }
    }

    /// `if local < CONSTANT { panic!(..) }` aborts the trace.
    pub fn try_lower_have_argument_guard(&mut self, stmt: &'a Stmt) -> (r: bool)
        ensures
            final(self)@ == check_range(old(self)@, stmt).0,
            r == check_range(old(self)@, stmt).1,
    {
        proof {
            reveal(check_range);
        }
        match self.range_check_of(stmt) {
            Some((local, name)) => {
                let c = self.alloc_reg();
                self.load_named(c, name);
                let ok = self.alloc_label();
                self.emit_aux(Op::NewLabel(ok));
                self.emit_branch(
                    two_slots(int_reg(local), int_reg(c)),
                    ok,
                    Op::GotoIfNotIntLt(local, c, ok),
                );
                self.emit_terminal(no_slots(), Op::Abort);
                self.emit_label_def(ok);
                true
            },
            None => false,
        }
    }

    fn merge_of(&self, stmt: &Stmt) -> (r: Option<(u16, i64, u16)>)
        ensures
            r == merge(self@.bindings, *stmt),
    {
        proof {
            reveal(merge);
        }
        let a = match stmt {
            Stmt::Expr(e, _) => match &e.kind {
                ExprKind::Assign(a) => a,
                _ => {
                    return None;
                },
            },
            _ => {
                return None;
            },
        };
        let name = match expr_single_ident(&a.left) {
            Some(name) => name,
            None => {
                return None;
            },
        };
        let or = match &unwrap_expr_paren(&a.right).kind {
            ExprKind::Binary(b) => b,
            _ => {
                return None;
            },
        };
        if or.op != BinOp::BitOr {
            return None;
        }
        match (
            self.int_binding(name.as_str()),
            scale_of(&or.left, name.as_str()),
            expr_single_ident(unwrap_cast(unwrap_expr_paren(&or.right))),
        ) {
            (Some(oparg), Some(factor), Some(arg)) => match self.int_binding(arg.as_str()) {
                Some(reg) => Some((oparg, factor, reg)),
                None => None,
            },
            _ => None,
        }
    }

    /// `oparg = (oparg * factor) | arg`.
    pub fn try_lower_oparg_merge_stmt(&mut self, stmt: &Stmt) -> (r: bool)
        ensures
            final(self)@ == merge_arg(old(self)@, *stmt).0,
            r == merge_arg(old(self)@, *stmt).1,
    {
        proof {
            reveal(merge_arg);
        }
        match self.merge_of(stmt) {
            Some((oparg, factor, arg)) => {
                let c = self.alloc_reg();
                self.load_const(c, factor);
                self.combine_const(oparg, IntOpcode::IntMul, oparg, c);
                self.combine_const(oparg, IntOpcode::IntOr, oparg, arg);
                true
            },
            None => false,
        }
    }

    fn lower_loop_step(&mut self, stmt: &'a Stmt, inner_alias: &NameTable<u16>) -> (r: bool)
        ensures
            final(self)@ == loop_step(old(self)@, stmt, inner_alias@).0,
            r == loop_step(old(self)@, stmt, inner_alias@).1,
    {
        proof {
            reveal(loop_step);
        }
        self.try_lower_inner_byte_fetch(stmt, inner_alias) || self.try_lower_opcode_fetch_stmt(stmt)
            || self.try_lower_have_argument_guard(stmt) || self.try_lower_oparg_merge_stmt(stmt)
            || try_lower_alias_assign_stmt(stmt, inner_alias)
    }

    /// The statements of the loop's body.
    pub fn lower_extended_arg_inner_while_body(
        &mut self,
        body: &'a Block,
        inner_alias: &NameTable<u16>,
    ) -> (r: Option<()>)
        ensures
            final(self)@ == loop_steps(old(self)@, &body.stmts, 0, inner_alias@).0,
            r is Some == loop_steps(old(self)@, &body.stmts, 0, inner_alias@).1,
    {
        let mut i: usize = 0;
        while i < body.stmts.len()
            invariant
                i <= body.stmts.len(),
                loop_steps(old(self)@, &body.stmts, 0, inner_alias@) == loop_steps(
                    self@,
                    &body.stmts,
                    i as int,
                    inner_alias@,
                ),
            decreases body.stmts.len() - i,
        {
            if !self.lower_loop_step(&body.stmts[i], inner_alias) {
                return None;
            }
            i = i + 1;
        }
        Some(())
    }

    fn loop_aliases(&self, stmts: &Vec<Stmt>) -> (r: NameTable<u16>)
        ensures
            r@ == aliases(self@.bindings, stmts@, stmts@.len() as int),
    {
        let mut known: NameTable<u16> = NameTable::new();
        let mut i: usize = 0;
        while i < stmts.len()
            invariant
                i <= stmts.len(),
                known@ == aliases(self@.bindings, stmts@, i as int),
            decreases stmts.len() - i,
        {
            if let Some((l, r)) = match_simple_ident_assign(&stmts[i]) {
                if let Some(reg) = self.int_binding(l.as_str()) {
                    known.insert(r.clone(), reg);
                }
            }
            i = i + 1;
        }
        known
    }

    /// The loop that collects an extended argument.
    pub fn lower_extended_arg_inner_while(&mut self, while_expr: &'a ExprWhile) -> (r: Option<()>)
        ensures
            final(self)@ == inner_while(old(self)@, while_expr).0,
            r is Some == inner_while(old(self)@, while_expr).1,
    {
        proof {
            reveal(inner_while);
        }
        let (opcode, name) = match self.pick_local_and_const_idents(&while_expr.cond) {
            Some(picked) => picked,
            None => {
                return None;
            },
        };
        let known = self.loop_aliases(&while_expr.body.stmts);
        let c = self.alloc_reg();
        self.load_named(c, name);
        let top = self.alloc_label();
        let after = self.alloc_label();
        self.emit_aux(Op::NewLabel(top));
        self.emit_aux(Op::NewLabel(after));
        self.emit_label_def(top);
        self.emit_branch(
            two_slots(int_reg(opcode), int_reg(c)),
            after,
            Op::GotoIfNotIntEq(opcode, c, after),
        );
        if self.lower_extended_arg_inner_while_body(&while_expr.body, &known).is_none() {
            return None;
        }
        self.emit_jump(top);
        self.emit_label_def(after);
        Some(())
    }
}

/// Whether the statement assigns an inner name to the variable that it stands
/// for already.
pub fn try_lower_alias_assign_stmt(stmt: &Stmt, inner_alias: &NameTable<u16>) -> (r: bool)
    ensures
        r == is_alias_assign(*stmt, inner_alias@),
{
    match match_simple_ident_assign(stmt) {
        Some((_, r)) => inner_alias.contains_key(r.as_str()),
        None => false,
    }
}

// ── Growth ───────────────────────────────────────────────────────────

broadcast proof fn grows_loop_step<'a>(s: LowerState<'a>, stmt: &'a Stmt, known: Aliases)
    ensures
        grows(s, (#[trigger] loop_step(s, stmt, known)).0),
{
    broadcast use {
        grows_self,
        grows_further,
        grows_reg_taken,
        grows_labels,
        grows_label_taken,
        grows_bind,
        grows_aux,
        grows_branch,
        grows_terminal,
        grows_label_def,
        grows_load_const,
        grows_load_named,
        grows_combine_const,
        grows_load_byte,
        grows_index_register,
        grows_opcode_fetch,
    };

    reveal(loop_step);
    reveal(fetch_alias);
    reveal(check_range);
    reveal(merge_arg);
    let s1 = fetch_alias(s, *stmt, known).0;
    assert(grows(s, s1));
    let s2 = opcode_fetch(s1, stmt).0;
    let s3 = check_range(s2, stmt).0;
    assert(grows(s2, s3));
    let s4 = merge_arg(s3, *stmt).0;
    assert(grows(s3, s4));
}

pub proof fn grows_loop_steps<'a>(s: LowerState<'a>, stmts: &'a Vec<Stmt>, i: int, known: Aliases)
    ensures
        grows(s, loop_steps(s, stmts, i, known).0),
    decreases stmts.len() - i,
{
    broadcast use {grows_self, grows_further, grows_loop_step};

    if 0 <= i < stmts.len() {
        grows_loop_steps(loop_step(s, &stmts[i], known).0, stmts, i + 1, known);
    }
}

/// The loop only adds.
pub broadcast proof fn grows_inner_while<'a>(s: LowerState<'a>, w: &'a ExprWhile)
    ensures
        grows(s, (#[trigger] inner_while(s, w)).0),
{
    broadcast use {
        grows_self,
        grows_further,
        grows_reg_taken,
        grows_labels,
        grows_label_taken,
        grows_aux,
        grows_branch,
        grows_jump,
        grows_label_def,
        label_def_labels,
        grows_load_named,
    };

    reveal(inner_while);
    if let Some((opcode, name)) = local_and_const(s.bindings, *w.cond) {
        let known = aliases(s.bindings, w.body.stmts@, w.body.stmts@.len() as int);
        let c = s.next_reg;
        let s1 = load_named(s.reg_taken(), c, &name);
        let top = s1.fresh_label();
        let after = s1.label_taken().fresh_label();
        let s2 = s1.label_taken().label_taken().aux(Op::NewLabel(top)).aux(
            Op::NewLabel(after),
        ).label_def(top).branch(
            seq![int_slot(opcode), int_slot(c)],
            after,
            Op::GotoIfNotIntEq(opcode, c, after),
        );
        assert(grows(s, s1) && grows(s1, s2));
        grows_loop_steps(s2, &w.body.stmts, 0, known);
        let s3 = loop_steps(s2, &w.body.stmts, 0, known).0;
        assert(label_between(s1, s3.jump(top), after));
    }
}

} // verus!
