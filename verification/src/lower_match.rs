//! Lowering of `match`.

use vstd::prelude::*;

use crate::ast::{Arm, Expr, ExprKind};
use crate::kinds::{Binding, BindingKind};
use crate::lower_spec::{
    arm_test, arms_testable, load_and_compare, match_stmt, match_stmt_arms, match_value,
    match_value_arms, match_value_chain, or_literals, test_literal,
};
use crate::lower_value::{all_arms_testable, arm_is_default, last_default_arm, literals_of_arm};
use crate::lowerer::{int_reg, Lowerer, no_slots, one_slot, two_slots};
use crate::ops::{IntOpcode, Label, Op, OpKind};

verus! {

impl<'a> Lowerer<'a> {
    fn emit_load_and_compare(&mut self, disc: u16, v: i64, c: u16, eq: u16)
        ensures
            final(self)@ == load_and_compare(old(self)@, disc, v, c, eq),
    {
        proof {
            reveal(load_and_compare);
        }
        self.emit_simple(
            OpKind::LoadConstI,
            no_slots(),
            one_slot(int_reg(c)),
            Op::LoadConst(c, v),
        );
        self.emit_simple(
            OpKind::BinopI,
            two_slots(int_reg(disc), int_reg(c)),
            one_slot(int_reg(eq)),
            Op::Binop(eq, IntOpcode::IntEq, disc, c),
        );
    }

    /// The test of an arm: control goes on where one of the literals matches.
    pub fn emit_arm_test(&mut self, disc: u16, lits: &Vec<i64>, next: Label)
        requires
            lits@.len() > 0,
        ensures
            final(self)@ == arm_test(old(self)@, disc, lits@, next),
    {
        proof {
            reveal(arm_test);
            reveal(or_literals);
            reveal(test_literal);
        }
        let c: u16 = self.alloc_reg();
        let mut acc: u16 = self.alloc_reg();
        self.emit_load_and_compare(disc, lits[0], c, acc);
        let ghost s1 = self@;
        let ghost eq = acc;
        let mut i: usize = 1;
        while i < lits.len()
            invariant
                1 <= i <= lits.len(),
                or_literals(s1, disc, lits@, 1, eq) == or_literals(
                    self@,
                    disc,
                    lits@,
                    i as int,
                    acc,
                ),
            decreases lits.len() - i,
        {
            proof {
                reveal(arm_test);
                reveal(or_literals);
                reveal(test_literal);
            }
            let c: u16 = self.alloc_reg();
            let eq_reg: u16 = self.alloc_reg();
            let or: u16 = self.alloc_reg();
            self.emit_load_and_compare(disc, lits[i], c, eq_reg);
            self.emit_simple(
                OpKind::BinopI,
                two_slots(int_reg(acc), int_reg(eq_reg)),
                one_slot(int_reg(or)),
                Op::Binop(or, IntOpcode::IntOr, acc, eq_reg),
            );
            acc = or;
            i = i + 1;
        }
        self.emit_live();
        self.emit_conditional_guard(acc, next);
    }

    /// `match` in value position.
    pub fn lower_match_value(&mut self, expr: &'a Expr) -> (r: Option<Binding>)
        ensures
            final(self)@ == match_value(old(self)@, expr).0,
            r == match_value(old(self)@, expr).1,
        decreases *expr, 8int,
    {
        let m = match &expr.kind {
            ExprKind::Match(m) => m,
            _ => {
                return None;
            },
        };
        let disc = match self.lower_value_expr(&m.expr) {
            Some(b) => b,
            None => {
                return None;
            },
        };
        if disc.kind != BindingKind::Int {
            return None;
        }
        let end_label = self.alloc_label();
        let dst: u16 = self.alloc_reg();
        self.emit_aux(Op::NewLabel(end_label));
        if !all_arms_testable(&m.arms) {
            return None;
        }
        self.lower_match_value_chain(&m.arms, disc, end_label, dst)
    }

    fn lower_match_value_chain(
        &mut self,
        arms: &'a Vec<Arm>,
        disc: Binding,
        end_label: Label,
        dst: u16,
    ) -> (r: Option<Binding>)
        requires
            arms_testable(arms@),
        ensures
            final(self)@ == match_value_chain(old(self)@, arms, disc, end_label, dst).0,
            r == match_value_chain(old(self)@, arms, disc, end_label, dst).1,
        decreases *arms, arms.len() + 2,
    {
        match self.lower_match_value_arms(arms, disc.reg, end_label, dst, disc.depends_on_stack) {
            None => None,
            Some(depends_on_stack) => {
                self.emit_label_def(end_label);
                Some(Binding { reg: dst, kind: BindingKind::Int, depends_on_stack })
            },
        }
    }

    fn lower_match_value_arms(
        &mut self,
        arms: &'a Vec<Arm>,
        disc: u16,
        end_label: Label,
        dst: u16,
        depends_on_stack: bool,
    ) -> (r: Option<bool>)
        requires
            arms_testable(arms@),
        ensures
            final(self)@ == match_value_arms(
                old(self)@,
                arms,
                0,
                disc,
                end_label,
                dst,
                depends_on_stack,
            ).0,
            r == match_value_arms(
                old(self)@,
                arms,
                0,
                disc,
                end_label,
                dst,
                depends_on_stack,
            ).1,
        decreases *arms, arms.len() + 1,
    {
        let mut depends = depends_on_stack;
        let mut i: usize = 0;
        while i < arms.len()
            invariant
                i <= arms.len(),
                arms_testable(arms@),
                match_value_arms(
                    old(self)@,
                    arms,
                    0,
                    disc,
                    end_label,
                    dst,
                    depends_on_stack,
                ) == match_value_arms(self@, arms, i as int, disc, end_label, dst, depends),
            decreases arms.len() - i,
        {
            if !arm_is_default(&arms[i]) {
                let next = self.alloc_label();
                self.emit_aux(Op::NewLabel(next));
                match literals_of_arm(&arms[i]) {
                    None => {
                        assert(false);
                    },
                    Some(lits) => {
                        self.emit_arm_test(disc, &lits, next);
                    },
                }
                match self.lower_branch_value_expr(&arms[i].body) {
                    None => {
                        return None;
                    },
                    Some((seq, b)) => {
                        if b.kind != BindingKind::Int {
                            return None;
                        }
                        depends = depends || b.depends_on_stack;
                        self.append_lowered_sequence(seq);
                        self.emit_move_int(dst, b.reg);
                        self.emit_jump(end_label);
                        self.emit_label_def(next);
                    },
                }
            }
            i = i + 1;
        }
        match last_default_arm(arms) {
            None => Some(depends),
            Some(d) => match self.lower_branch_value_expr(&arms[d].body) {
                None => None,
                Some((seq, b)) => {
                    if b.kind != BindingKind::Int {
                        return None;
                    }
                    self.append_lowered_sequence(seq);
                    self.emit_move_int(dst, b.reg);
                    Some(depends || b.depends_on_stack)
                },
            },
        }
    }

    /// `match` in statement position.
    pub fn lower_match_stmt(&mut self, expr: &'a Expr) -> (r: Option<()>)
        ensures
            final(self)@ == match_stmt(old(self)@, expr).0,
            r is Some == match_stmt(old(self)@, expr).1,
        decreases *expr, 16int,
    {
        let m = match &expr.kind {
            ExprKind::Match(m) => m,
            _ => {
                return None;
            },
        };
        let disc = match self.lower_value_expr(&m.expr) {
            Some(b) => b,
            None => {
                return None;
            },
        };
        if disc.kind != BindingKind::Int {
            return None;
        }
        let end_label = self.alloc_label();
        self.emit_aux(Op::NewLabel(end_label));
        if !all_arms_testable(&m.arms) {
            return None;
        }
        match self.lower_match_stmt_arms(&m.arms, disc.reg, end_label) {
            None => None,
            Some(_) => {
                self.emit_label_def(end_label);
                Some(())
            },
        }
    }

    fn lower_match_stmt_arms(&mut self, arms: &'a Vec<Arm>, disc: u16, end_label: Label) -> (r:
        Option<()>)
        requires
            arms_testable(arms@),
        ensures
            final(self)@ == match_stmt_arms(old(self)@, arms, 0, disc, end_label).0,
            r is Some == match_stmt_arms(old(self)@, arms, 0, disc, end_label).1,
        decreases *arms, arms.len() + 1,
    {
        let mut i: usize = 0;
        while i < arms.len()
            invariant
                i <= arms.len(),
                arms_testable(arms@),
                match_stmt_arms(old(self)@, arms, 0, disc, end_label) == match_stmt_arms(
                    self@,
                    arms,
                    i as int,
                    disc,
                    end_label,
                ),
            decreases arms.len() - i,
        {
            if !arm_is_default(&arms[i]) {
                let next = self.alloc_label();
                self.emit_aux(Op::NewLabel(next));
                match literals_of_arm(&arms[i]) {
                    None => {
                        assert(false);
                    },
                    Some(lits) => {
                        self.emit_arm_test(disc, &lits, next);
                    },
                }
                match self.lower_branch_expr(&arms[i].body) {
                    None => {
                        return None;
                    },
                    Some(seq) => {
                        self.append_lowered_sequence(seq);
                        self.emit_jump(end_label);
                        self.emit_label_def(next);
                    },
                }
            }
            i = i + 1;
        }
        match last_default_arm(arms) {
            None => Some(()),
            Some(d) => match self.lower_branch_expr(&arms[d].body) {
                None => None,
                Some(seq) => {
                    self.append_lowered_sequence(seq);
                    Some(())
                },
            },
        }
    }
}

} // verus!
