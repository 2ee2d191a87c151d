//! Lowering of statements.

use vstd::prelude::*;

use crate::analysis::{
    expr_modifies_jit_state, expr_references_any_binding, expr_touches_storage,
    stmt_modifies_jit_state,
};
use crate::ast::{Expr, ExprKind, Local, Pat, path_last_is, Stmt};
use crate::kinds::{Binding, BindingKind};
use crate::lower_spec::{
    branch_block, branch_expr, else_branch, expr_or_skip, expr_stmt, expr_stmt_control,
    expr_stmt_vable, if_branches, if_stmt, if_stmt_tail, lower_local, lower_stmt, lower_stmts,
};
use crate::lowerer::{int_reg, Lowerer, no_slots, one_slot, sequence_view};
use crate::ops::{Label, LoweredSequence, Op, OpKind};

verus! {

impl<'a> Lowerer<'a> {
    /// Lowers one statement.
    pub fn lower_stmt(&mut self, stmt: &'a Stmt) -> (r: Option<()>)
        ensures
            final(self)@ == lower_stmt(old(self)@, stmt).0,
            r is Some == lower_stmt(old(self)@, stmt).1,
        decreases *stmt, 1int,
    {
        match stmt {
            Stmt::Local(l) => {
                if self.lower_local(l).is_some() {
                    return Some(());
                }
                if self.ctx.config.is_some() && !stmt_modifies_jit_state(self.ctx.config, stmt) {
                    return Some(());
                }
                None
            },
            Stmt::Expr(e, _) => self.lower_expr_or_skip(e),
            Stmt::Macro(path) => {
                if self.ctx.in_dispatch_arm_body && path_last_is(path, "can_enter_jit") {
                    self.emit_simple(OpKind::LoopHeader, no_slots(), no_slots(), Op::LoopHeader);
                    return Some(());
                }
                None
            },
            Stmt::Item(_) => None,
        }
    }

    /// Lowers the statements from `start` up to `end`.
    pub fn lower_stmts(&mut self, stmts: &'a Vec<Stmt>, start: usize, end: usize) -> (r: Option<()>)
        requires
            start <= end <= stmts.len(),
        ensures
            final(self)@ == lower_stmts(old(self)@, stmts, start as int, end as int).0,
            r is Some == lower_stmts(old(self)@, stmts, start as int, end as int).1,
        decreases *stmts, stmts.len() - start,
    {
        let mut i: usize = start;
        while i < end
            invariant
                start <= i <= end <= stmts.len(),
                lower_stmts(old(self)@, stmts, start as int, end as int) == lower_stmts(
                    self@,
                    stmts,
                    i as int,
                    end as int,
                ),
            decreases end - i,
        {
            if self.lower_stmt(&stmts[i]).is_none() {
                return None;
            }
            i = i + 1;
        }
        Some(())
    }

    /// Lowers `let name = init`.
    pub fn lower_local(&mut self, local: &'a Local) -> (r: Option<()>)
        ensures
            final(self)@ == lower_local(old(self)@, local).0,
            r is Some == lower_local(old(self)@, local).1,
        decreases *local, 0int,
    {
        let p = match &local.pat {
            Pat::Ident(p) => p,
            _ => {
                return None;
            },
        };
        let init = match &local.init {
            Some(init) => init,
            None => {
                return None;
            },
        };
        if let Some(b) = self.lower_value_expr(&init.expr) {
            if b.depends_on_stack {
                self.emit_aux(Op::LocalZero(&p.ident));
            }
            self.bind(p.ident.clone(), b);
            return Some(());
        }
        if self.ctx.config.is_some() && !expr_touches_storage(self.ctx.config, &init.expr)
            && !expr_references_any_binding(&self.bindings, &init.expr) {
            let reg: u16 = self.alloc_reg();
            self.emit_simple(
                OpKind::LoadConstI,
                no_slots(),
                one_slot(int_reg(reg)),
                Op::RuntimeConst(reg, &p.ident, &init.expr),
            );
            self.bind(p.ident.clone(), Binding::new_fixed(BindingKind::Int, reg));
            return Some(());
        }
        None
    }

    /// Lowers an expression in statement position, or leaves it out where it
    /// changes no state.
    pub fn lower_expr_or_skip(&mut self, expr: &'a Expr) -> (r: Option<()>)
        ensures
            final(self)@ == expr_or_skip(old(self)@, expr).0,
            r is Some == expr_or_skip(old(self)@, expr).1,
        decreases *expr, 20int,
    {
        if self.lower_expr_stmt(expr).is_some() {
            return Some(());
        }
        if self.ctx.config.is_some() && !expr_modifies_jit_state(self.ctx.config, expr) {
            return Some(());
        }
        None
    }

    /// Lowers an expression in statement position.
    pub fn lower_expr_stmt(&mut self, expr: &'a Expr) -> (r: Option<()>)
        ensures
            final(self)@ == expr_stmt(old(self)@, expr).0,
            r is Some == expr_stmt(old(self)@, expr).1,
        decreases *expr, 19int,
    {
        if self.lower_promote_stmt(expr).is_some() {
            return Some(());
        }
        if self.lower_state_field_update(expr).is_some() {
            return Some(());
        }
        if self.lower_state_field_write(expr).is_some() {
            return Some(());
        }
        if self.lower_state_array_write(expr).is_some() {
            return Some(());
        }
        self.lower_vable_stmt(expr)
    }

    fn lower_vable_stmt(&mut self, expr: &'a Expr) -> (r: Option<()>)
        ensures
            final(self)@ == expr_stmt_vable(old(self)@, expr).0,
            r is Some == expr_stmt_vable(old(self)@, expr).1,
        decreases *expr, 18int,
    {
        if self.lower_vable_field_write(expr).is_some() {
            return Some(());
        }
        if self.lower_vable_array_write(expr).is_some() {
            return Some(());
        }
        if self.lower_vable_force(expr).is_some() {
            return Some(());
        }
        if self.lower_vable_hint_suppress(expr).is_some() {
            return Some(());
        }
        if self.lower_conditional_call(expr).is_some() {
            return Some(());
        }
        if self.lower_record_known_result(expr).is_some() {
            return Some(());
        }
        self.lower_control_stmt(expr)
    }

    fn lower_control_stmt(&mut self, expr: &'a Expr) -> (r: Option<()>)
        ensures
            final(self)@ == expr_stmt_control(old(self)@, expr).0,
            r is Some == expr_stmt_control(old(self)@, expr).1,
        decreases *expr, 17int,
    {
        match &expr.kind {
            ExprKind::If(_) => self.lower_if_stmt(expr),
            ExprKind::Match(_) => self.lower_match_stmt(expr),
            ExprKind::While(_) => self.lower_while_loop(expr),
            ExprKind::Loop(_) => self.lower_loop_expr(expr),
            ExprKind::ForLoop(_) => None,
            _ => {
                if self.lower_config_call_stmt(expr).is_some() {
                    return Some(());
                }
                if self.ctx.config.is_some() {
                    self.lower_io_call_stmt(expr)
                } else {
                    None
                }
            },
        }
    }

    // ── Branches ─────────────────────────────────────────────────────

    /// `if` in statement position.
    pub fn lower_if_stmt(&mut self, expr: &'a Expr) -> (r: Option<()>)
        ensures
            final(self)@ == if_stmt(old(self)@, expr).0,
            r is Some == if_stmt(old(self)@, expr).1,
        decreases *expr, 16int,
    {
        match &expr.kind {
            ExprKind::If(i) => match self.lower_value_expr(&i.cond) {
                Some(cond) => self.lower_if_branches(expr, cond.reg),
                None => None,
            },
            _ => None,
        }
    }

    /// The branches of an `if` in statement position.
    fn lower_if_branches(&mut self, expr: &'a Expr, cond: u16) -> (r: Option<()>)
        ensures
            final(self)@ == if_branches(old(self)@, expr, cond).0,
            r is Some == if_branches(old(self)@, expr, cond).1,
        decreases *expr, 15int,
    {
        match &expr.kind {
            ExprKind::If(i) => {
                let else_label = self.alloc_label();
                let end_label = self.alloc_label();
                match self.lower_branch_block(&i.then_branch.stmts) {
                    Some(then_seq) => match self.lower_else_branch(expr) {
                        Some(else_seq) => {
                            self.emit_if_stmt(cond, else_label, end_label, then_seq, else_seq);
                            Some(())
                        },
                        None => None,
                    },
                    None => None,
                }
            },
            _ => None,
        }
    }

    /// The `else` branch of an `if` in statement position.
    fn lower_else_branch(&mut self, expr: &'a Expr) -> (r: Option<LoweredSequence<'a>>)
        ensures
            final(self)@ == else_branch(old(self)@, expr).0,
            match r {
                Some(seq) => else_branch(old(self)@, expr).1 == Some(sequence_view(seq)),
                None => else_branch(old(self)@, expr).1 is None,
            },
        decreases *expr, 14int,
    {
        match &expr.kind {
            ExprKind::If(i) => match &i.else_branch {
                Some(x) => self.lower_branch_expr(x),
                None => {
                    let empty = LoweredSequence { statements: Vec::new(), op_metadata: Vec::new() };
                    assert(sequence_view(empty).0 =~= seq![]);
                    assert(sequence_view(empty).1 =~= seq![]);
                    Some(empty)
                },
            },
            _ => None,
        }
    }

    /// The code of an `if`, from its lowered branches.
    fn emit_if_stmt(
        &mut self,
        cond: u16,
        else_label: Label,
        end_label: Label,
        then_seq: LoweredSequence<'a>,
        else_seq: LoweredSequence<'a>,
    )
        ensures
            final(self)@ == if_stmt_tail(
                old(self)@,
                cond,
                else_label,
                end_label,
                sequence_view(then_seq),
                sequence_view(else_seq),
            ),
    {
        proof {
            reveal(if_stmt_tail);
        }
        self.emit_aux(Op::NewLabel(else_label));
        self.emit_aux(Op::NewLabel(end_label));
        self.emit_live();
        self.emit_conditional_guard(cond, else_label);
        self.append_lowered_sequence(then_seq);
        self.emit_jump(end_label);
        self.emit_label_def(else_label);
        self.append_lowered_sequence(else_seq);
        self.emit_label_def(end_label);
    }

    /// A branch in statement position, lowered by itself.
    pub fn lower_branch_expr(&mut self, expr: &'a Expr) -> (r: Option<LoweredSequence<'a>>)
        ensures
            final(self)@ == branch_expr(old(self)@, expr).0,
            match r {
                Some(seq) => branch_expr(old(self)@, expr).1 == Some(sequence_view(seq)),
                None => branch_expr(old(self)@, expr).1 is None,
            },
        decreases *expr, 21int,
    {
        match &expr.kind {
            ExprKind::Block(b) => self.lower_branch_block(&b.stmts),
            _ => {
                let mut nested = self.start_branch();
                match nested.lower_expr_or_skip(expr) {
                    Some(_) => {
                        self.join_branch(&nested);
                        Some(
                            LoweredSequence {
                                statements: nested.statements,
                                op_metadata: nested.op_metadata,
                            },
                        )
                    },
                    None => {
                        self.abandon_branch(&nested);
                        None
                    },
                }
            },
        }
    }

    /// A block in statement position, lowered by itself.
    pub fn lower_branch_block(&mut self, stmts: &'a Vec<Stmt>) -> (r: Option<LoweredSequence<'a>>)
        ensures
            final(self)@ == branch_block(old(self)@, stmts).0,
            match r {
                Some(seq) => branch_block(old(self)@, stmts).1 == Some(sequence_view(seq)),
                None => branch_block(old(self)@, stmts).1 is None,
            },
        decreases *stmts, stmts.len() + 1,
    {
        let mut nested = self.start_branch();
        match nested.lower_stmts(stmts, 0, stmts.len()) {
            Some(_) => {
                self.join_branch(&nested);
                Some(
                    LoweredSequence {
                        statements: nested.statements,
                        op_metadata: nested.op_metadata,
                    },
                )
            },
            None => {
                self.abandon_branch(&nested);
                None
            },
        }
    }

    // ── Loops ────────────────────────────────────────────────────────

}

} // verus!
