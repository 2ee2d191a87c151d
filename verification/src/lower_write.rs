//! Lowering of assignments to state fields and virtualizables, and of hints.

use vstd::prelude::*;

use crate::analysis::{classify_virtualizable_hint_path, is_promote_call_path};
use crate::ast::{Expr, ExprKind};
use crate::kinds::{BindingKind, ValueKind};
use crate::lower_spec::{
    element_value, hint_suppressed, is_force_hint, is_promotion, promote_stmt, promoted_name,
    state_array_name, state_array_write, state_field_update, state_field_write, store_element,
    store_updated, update_target, vable_array_target, vable_array_write, vable_field_write,
    vable_force, vable_store, vable_value, value,
};
use crate::lower_value::{
    array_number, index_assign_parts, scalar_number, state_field_name, vable_array_number,
    vable_field_name, vable_field_number,
};
use crate::lowerer::{
    int_reg, Lowerer, no_slots, one_slot, ref_reg, Reject, slot, three_slots, two_slots,
};
use crate::ops::{IntOpcode, Op, OpKind};
use crate::patterns::opcode_for_assign_binop;
use crate::policy::VirtualizableHintKind;

verus! {

impl<'a> Lowerer<'a> {
    /// The name that `name = promote(..)` assigns to.
    fn promote_target<'b>(expr: &'b Expr) -> (r: Option<&'b String>)
        ensures
            match r {
                Some(s) => promoted_name(*expr) == Some(s@),
                None => promoted_name(*expr) is None,
            },
    {
        proof {
            reveal(promoted_name);
        }
        match &expr.kind {
            ExprKind::Assign(a) => match &a.left.kind {
                ExprKind::Path(p) => match &a.right.kind {
                    ExprKind::Call(c) => match p.path.get_ident() {
                        Some(name) => if is_promote_call_path(&c.func) {
                            Some(name)
                        } else {
                            None
                        },
                        None => None,
                    },
                    _ => None,
                },
                _ => None,
            },
            _ => None,
        }
    }

    fn is_promote_expr(expr: &Expr) -> (r: bool)
        ensures
            r == is_promotion(*expr),
    {
        proof {
            reveal(is_promotion);
        }
        match &expr.kind {
            ExprKind::Call(c) => is_promote_call_path(&c.func),
            _ => false,
        }
    }

    /// `name = promote(x)` and `promote(x)`.
    pub fn lower_promote_stmt(&mut self, expr: &'a Expr) -> (r: Option<()>)
        ensures
            final(self)@ == promote_stmt(old(self)@, expr).0,
            r is Some == promote_stmt(old(self)@, expr).1,
        decreases *expr, 16int,
    {
        if let Some(name) = Lowerer::promote_target(expr) {
            if let ExprKind::Assign(a) = &expr.kind {
                assert(promote_stmt(self@, expr) == match value(self@, &*a.right) {
                    (s, Some(b)) => (s.bind(name@, b), true),
                    (s, None) => (s, false),
                });
                return match self.lower_value_expr(&a.right) {
                    Some(b) => {
                        self.bind(name.clone(), b);
                        Some(())
                    },
                    None => None,
                };
            }
        }
        if Lowerer::is_promote_expr(expr) {
            assert(promote_stmt(self@, expr) == (
                value(self@, expr).0,
                value(self@, expr).1 is Some,
            ));
            match self.lower_value_expr(expr) {
                Some(_) => Some(()),
                None => None,
            }
        } else {
            None
        }
    }

    /// Field and operation of `state.field op= ..`.
    fn update_target_of(&self, expr: &Expr) -> (r: Option<(u16, IntOpcode)>)
        ensures
            r == update_target(self@.ctx.config, *expr),
    {
        proof {
            reveal(update_target);
        }
        match &expr.kind {
            ExprKind::Binary(b) => match state_field_name(&b.left) {
                Some(name) => match scalar_number(self.ctx.config, name.as_str()) {
                    Some(field) => match opcode_for_assign_binop(b.op) {
                        Some(opcode) => Some((field, opcode)),
                        None => None,
                    },
                    None => None,
                },
                None => None,
            },
            _ => None,
        }
    }

    fn emit_store_updated(&mut self, field: u16, opcode: IntOpcode, left: u16, right: u16)
        ensures
            final(self)@ == store_updated(old(self)@, field, opcode, left, right),
    {
        proof {
            reveal(store_updated);
        }
        let dst: u16 = self.alloc_reg();
        self.emit_simple(
            OpKind::BinopI,
            two_slots(int_reg(left), int_reg(right)),
            one_slot(int_reg(dst)),
            Op::Binop(dst, opcode, left, right),
        );
        self.emit_simple(
            OpKind::StateField,
            one_slot(int_reg(dst)),
            no_slots(),
            Op::StoreStateField(field, dst),
        );
    }

    /// `state.field op= value`.
    pub fn lower_state_field_update(&mut self, expr: &'a Expr) -> (r: Option<()>)
        ensures
            final(self)@ == state_field_update(old(self)@, expr).0,
            r is Some == state_field_update(old(self)@, expr).1,
        decreases *expr, 16int,
    {
        let (field, opcode) = match self.update_target_of(expr) {
            Some(x) => x,
            None => {
                return None;
            },
        };
        match &expr.kind {
            ExprKind::Binary(b) => match self.lower_state_field_read(&b.left) {
                Some(lhs) => match self.lower_value_expr(&b.right) {
                    Some(rhs) => if rhs.kind == BindingKind::Int {
                        self.emit_store_updated(field, opcode, lhs.reg, rhs.reg);
                        Some(())
                    } else {
                        None
                    },
                    None => None,
                },
                None => None,
            },
            _ => None,
        }
    }

    /// `state.field = value`.
    pub fn lower_state_field_write(&mut self, expr: &'a Expr) -> (r: Option<()>)
        ensures
            final(self)@ == state_field_write(old(self)@, expr).0,
            r is Some == state_field_write(old(self)@, expr).1,
        decreases *expr, 16int,
    {
        let a = match &expr.kind {
            ExprKind::Assign(a) => a,
            _ => {
                return None;
            },
        };
        let name = match state_field_name(&a.left) {
            Some(name) => name,
            None => {
                return None;
            },
        };
        let field: u16 = match scalar_number(self.ctx.config, name.as_str()) {
            Some(field) => field,
            None => {
                return None;
            },
        };
        match self.lower_value_expr(&a.right) {
            Some(b) => {
                self.emit_simple(
                    OpKind::StateField,
                    one_slot(int_reg(b.reg)),
                    no_slots(),
                    Op::StoreStateField(field, b.reg),
                );
                Some(())
            },
            None => None,
        }
    }

    /// The field name of `state.field` with a configuration.
    fn state_array_of<'b>(&self, array: &'b Expr) -> (r: Option<&'b String>)
        ensures
            match r {
                Some(s) => state_array_name(self@.ctx.config, *array) == Some(s@),
                None => state_array_name(self@.ctx.config, *array) is None,
            },
    {
        proof {
            reveal(state_array_name);
        }
        match self.ctx.config {
            Some(_) => state_field_name(array),
            None => None,
        }
    }

    fn emit_store_element(&mut self, name: &String, idx: u16, val: u16) -> (r: Option<()>)
        ensures
            final(self)@ == store_element(old(self)@, name@, idx, val).0,
            r is Some == store_element(old(self)@, name@, idx, val).1,
    {
        proof {
            reveal(store_element);
        }
        if idx > 255 {
            self.reject(Reject::RegisterIndex(idx));
            return None;
        }
        if val > 255 {
            self.reject(Reject::RegisterIndex(val));
            return None;
        }
        match array_number(self.ctx.config, name.as_str()) {
            Some((virt, array)) => {
                let op = if virt {
                    Op::StoreStateVarray(array, idx, val)
                } else {
                    Op::StoreStateArray(array, idx, val)
                };
                self.emit_simple(
                    OpKind::StateField,
                    two_slots(int_reg(idx), int_reg(val)),
                    no_slots(),
                    op,
                );
                Some(())
            },
            None => None,
        }
    }

    fn lower_element_value(&mut self, right: &'a Expr, name: &String, idx: u16) -> (r: Option<()>)
        ensures
            final(self)@ == element_value(old(self)@, right, name@, idx).0,
            r is Some == element_value(old(self)@, right, name@, idx).1,
        decreases *right, 13int,
    {
        match self.lower_value_expr(right) {
            Some(val) => self.emit_store_element(name, idx, val.reg),
            None => None,
        }
    }

    /// `state.array[index] = value`.
    pub fn lower_state_array_write(&mut self, expr: &'a Expr) -> (r: Option<()>)
        ensures
            final(self)@ == state_array_write(old(self)@, expr).0,
            r is Some == state_array_write(old(self)@, expr).1,
        decreases *expr, 16int,
    {
        match index_assign_parts(expr) {
            Some((array, index, right)) => match self.state_array_of(array) {
                Some(name) => match self.lower_value_expr(index) {
                    Some(idx) => self.lower_element_value(right, name, idx.reg),
                    None => None,
                },
                None => None,
            },
            None => None,
        }
    }

    /// `v.field = value` for a field of the virtualizable `v`.
    pub fn lower_vable_field_write(&mut self, expr: &'a Expr) -> (r: Option<()>)
        ensures
            final(self)@ == vable_field_write(old(self)@, expr).0,
            r is Some == vable_field_write(old(self)@, expr).1,
        decreases *expr, 16int,
    {
        let a = match &expr.kind {
            ExprKind::Assign(a) => a,
            _ => {
                return None;
            },
        };
        let name = match vable_field_name(self.ctx.config, &a.left) {
            Some(name) => name,
            None => {
                return None;
            },
        };
        let (field, ty) = match vable_field_number(self.ctx.config, name.as_str()) {
            Some(x) => x,
            None => {
                return None;
            },
        };
        let base: u16 = match self.vable_base_reg() {
            Some(base) => base,
            None => {
                return None;
            },
        };
        match self.lower_value_expr(&a.right) {
            Some(b) => {
                self.emit_simple(
                    OpKind::Vable,
                    two_slots(ref_reg(base), slot(ty.binding_kind(), b.reg)),
                    no_slots(),
                    Op::VableSetfield(ty, base, field, b.reg),
                );
                Some(())
            },
            None => None,
        }
    }

    /// Number, item type and base register of an array of the virtualizable.
    fn vable_array_of(&self, array: &Expr) -> (r: Option<(u16, ValueKind, u16)>)
        ensures
            r == vable_array_target(self@, *array),
    {
        proof {
            reveal(vable_array_target);
        }
        match vable_field_name(self.ctx.config, array) {
            Some(name) => match vable_array_number(self.ctx.config, name.as_str()) {
                Some((number, ty)) => match self.vable_base_reg() {
                    Some(base) => Some((number, ty, base)),
                    None => None,
                },
                None => None,
            },
            None => None,
        }
    }

    fn emit_vable_store(&mut self, array: u16, ty: ValueKind, base: u16, idx: u16, val: u16)
        ensures
            final(self)@ == vable_store(old(self)@, array, ty, base, idx, val),
    {
        proof {
            reveal(vable_store);
        }
        self.emit_simple(
            OpKind::Vable,
            three_slots(ref_reg(base), int_reg(idx), slot(ty.binding_kind(), val)),
            no_slots(),
            Op::VableSetarrayitem(ty, base, array, idx, val),
        );
    }

    fn lower_vable_value(
        &mut self,
        right: &'a Expr,
        array: u16,
        ty: ValueKind,
        base: u16,
        idx: u16,
    ) -> (r: Option<()>)
        ensures
            final(self)@ == vable_value(old(self)@, right, array, ty, base, idx).0,
            r is Some == vable_value(old(self)@, right, array, ty, base, idx).1,
        decreases *right, 13int,
    {
        match self.lower_value_expr(right) {
            Some(val) => {
                self.emit_vable_store(array, ty, base, idx, val.reg);
                Some(())
            },
            None => None,
        }
    }

    /// `v.array[index] = value` for an array of the virtualizable `v`.
    pub fn lower_vable_array_write(&mut self, expr: &'a Expr) -> (r: Option<()>)
        ensures
            final(self)@ == vable_array_write(old(self)@, expr).0,
            r is Some == vable_array_write(old(self)@, expr).1,
        decreases *expr, 16int,
    {
        match index_assign_parts(expr) {
            Some((array, index, right)) => match self.vable_array_of(array) {
                Some((number, ty, base)) => match self.lower_value_expr(index) {
                    Some(idx) => self.lower_vable_value(right, number, ty, base, idx.reg),
                    None => None,
                },
                None => None,
            },
            None => None,
        }
    }

    fn is_force_macro(&self, expr: &Expr) -> (r: bool)
        ensures
            r == is_force_hint(self@.ctx.config, *expr),
    {
        proof {
            reveal(is_force_hint);
        }
        let declared = match self.ctx.config {
            Some(c) => c.vable_var.is_some(),
            None => false,
        };
        match &expr.kind {
            ExprKind::Macro(m) => declared && matches!(
                classify_virtualizable_hint_path(&m.path),
                Some(VirtualizableHintKind::ForceVirtualizable)
            ),
            _ => false,
        }
    }

    /// `hint_force_virtualizable!(v)`.
    pub fn lower_vable_force(&mut self, expr: &'a Expr) -> (r: Option<()>)
        ensures
            final(self)@ == vable_force(old(self)@, expr).0,
            r is Some == vable_force(old(self)@, expr).1,
        decreases *expr, 16int,
    {
        match &expr.kind {
            ExprKind::Macro(m) => match &m.single {
                Some(arg) => if self.is_force_macro(expr) {
                    match self.lower_value_expr(arg) {
                        Some(b) => {
                            self.emit_simple(
                                OpKind::Vable,
                                one_slot(ref_reg(b.reg)),
                                no_slots(),
                                Op::VableForce(b.reg),
                            );
                            Some(())
                        },
                        None => None,
                    }
                } else {
                    None
                },
                None => None,
            },
            _ => None,
        }
    }

    /// Hints that leave no code.
    pub fn lower_vable_hint_suppress(&self, expr: &Expr) -> (r: Option<()>)
        ensures
            r is Some == hint_suppressed(self@.ctx.config, *expr),
    {
        match &expr.kind {
            ExprKind::Macro(m) => {
                if self.ctx.config.is_none() {
                    return None;
                }
                match classify_virtualizable_hint_path(&m.path) {
                    Some(VirtualizableHintKind::AccessDirectly) | Some(
                        VirtualizableHintKind::FreshVirtualizable,
                    ) => Some(()),
                    _ => None,
                }
            },
            _ => None,
        }
    }
}

} // verus!
