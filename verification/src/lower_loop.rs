//! Lowering of loops.

use vstd::prelude::*;

use crate::ast::{Expr, ExprKind, Stmt};
use crate::lower_spec::{loop_body, loop_expr, loop_if, loop_stmt, loop_stmts, while_loop};
use crate::lowerer::{Lowerer, sequence_view};
use crate::ops::{Label, LoweredSequence, Op};
use crate::patterns::expr_has_loop_control;

verus! {

impl<'a> Lowerer<'a> {
    /// `while cond { body }`.
    pub fn lower_while_loop(&mut self, expr: &'a Expr) -> (r: Option<()>)
        ensures
            final(self)@ == while_loop(old(self)@, expr).0,
            r is Some == while_loop(old(self)@, expr).1,
        decreases *expr, 16int,
    {
        let w = match &expr.kind {
            ExprKind::While(w) => w,
            _ => {
                return None;
            },
        };
        let start = self.alloc_label();
        let end = self.alloc_label();
        self.emit_aux(Op::NewLabel(start));
        self.emit_aux(Op::NewLabel(end));
        self.emit_label_def(start);
        let cond = match self.lower_value_expr(&w.cond) {
            Some(b) => b,
            None => {
                return None;
            },
        };
        self.emit_live();
        self.emit_conditional_guard(cond.reg, end);
        match self.lower_loop_body(&w.body.stmts, end, start) {
            None => None,
            Some(body) => {
                self.append_lowered_sequence(body);
                self.emit_jump(start);
                self.emit_label_def(end);
                Some(())
            },
        }
    }

    /// `loop { body }`.
    pub fn lower_loop_expr(&mut self, expr: &'a Expr) -> (r: Option<()>)
        ensures
            final(self)@ == loop_expr(old(self)@, expr).0,
            r is Some == loop_expr(old(self)@, expr).1,
        decreases *expr, 16int,
    {
        let b = match &expr.kind {
            ExprKind::Loop(b) => b,
            _ => {
                return None;
            },
        };
        let start = self.alloc_label();
        let end = self.alloc_label();
        self.emit_aux(Op::NewLabel(start));
        self.emit_aux(Op::NewLabel(end));
        self.emit_label_def(start);
        match self.lower_loop_body(&b.stmts, end, start) {
            None => None,
            Some(body) => {
                self.append_lowered_sequence(body);
                self.emit_jump(start);
                self.emit_label_def(end);
                Some(())
            },
        }
    }

    /// The body of a loop, lowered by itself.
    pub fn lower_loop_body(
        &mut self,
        stmts: &'a Vec<Stmt>,
        break_label: Label,
        continue_label: Label,
    ) -> (r: Option<LoweredSequence<'a>>)
        ensures
            final(self)@ == loop_body(old(self)@, stmts, break_label, continue_label).0,
            match r {
                Some(seq) => loop_body(old(self)@, stmts, break_label, continue_label).1 == Some(
                    sequence_view(seq),
                ),
                None => loop_body(old(self)@, stmts, break_label, continue_label).1 is None,
            },
        decreases *stmts, stmts.len() + 1,
    {
        let mut nested = self.start_branch();
        let ghost start = nested@;
        let mut i: usize = 0;
        while i < stmts.len()
            invariant
                i <= stmts.len(),
                start == old(self)@.nested(),
                self@ == old(self)@,
                loop_stmts(start, stmts, 0, break_label, continue_label) == loop_stmts(
                    nested@,
                    stmts,
                    i as int,
                    break_label,
                    continue_label,
                ),
            decreases stmts.len() - i,
        {
            if nested.lower_loop_stmt(&stmts[i], break_label, continue_label).is_none() {
                if nested.lower_stmt(&stmts[i]).is_none() {
                    self.abandon_branch(&nested);
                    return None;
                }
            }
            i = i + 1;
        }
        self.join_branch(&nested);
        Some(LoweredSequence { statements: nested.statements, op_metadata: nested.op_metadata })
    }

    /// A statement that is loop control, or an `if` around some.
    pub fn lower_loop_stmt(&mut self, stmt: &'a Stmt, break_label: Label, continue_label: Label) -> (r:
        Option<()>)
        ensures
            final(self)@ == loop_stmt(old(self)@, stmt, break_label, continue_label).0,
            r is Some == loop_stmt(old(self)@, stmt, break_label, continue_label).1,
        decreases *stmt, 1int,
    {
        match stmt {
            Stmt::Expr(e, _) => match &e.kind {
                ExprKind::Break(_) => {
                    self.emit_jump(break_label);
                    Some(())
                },
                ExprKind::Continue => {
                    self.emit_jump(continue_label);
                    Some(())
                },
                ExprKind::If(_) => self.lower_loop_if(e, break_label, continue_label),
                _ => None,
            },
            _ => None,
        }
    }

    /// An `if` in a loop body with loop control in its branches.
    pub fn lower_loop_if(&mut self, expr: &'a Expr, break_label: Label, continue_label: Label) -> (r:
        Option<()>)
        ensures
            final(self)@ == loop_if(old(self)@, expr, break_label, continue_label).0,
            r is Some == loop_if(old(self)@, expr, break_label, continue_label).1,
        decreases *expr, 16int,
    {
        let expr_if = match &expr.kind {
            ExprKind::If(i) => i,
            _ => {
                return None;
            },
        };
        if !expr_has_loop_control(expr) {
            return None;
        }
        let cond = match self.lower_value_expr(&expr_if.cond) {
            Some(b) => b,
            None => {
                return None;
            },
        };
        let else_label = self.alloc_label();
        let end_label = self.alloc_label();
        self.emit_aux(Op::NewLabel(else_label));
        self.emit_aux(Op::NewLabel(end_label));
        self.emit_live();
        self.emit_conditional_guard(cond.reg, else_label);
        match self.lower_loop_body(&expr_if.then_branch.stmts, break_label, continue_label) {
            None => {
                return None;
            },
            Some(then_seq) => {
                self.append_lowered_sequence(then_seq);
            },
        }
        self.emit_jump(end_label);
        self.emit_label_def(else_label);
        match &expr_if.else_branch {
            None => {},
            Some(x) => match &x.kind {
                ExprKind::Block(b) => match self.lower_loop_body(
                    &b.stmts,
                    break_label,
                    continue_label,
                ) {
                    None => {
                        return None;
                    },
                    Some(else_seq) => {
                        self.append_lowered_sequence(else_seq);
                    },
                },
                _ => {
                    return None;
                },
            },
        }
        self.emit_label_def(end_label);
        Some(())
    }
}

} // verus!
