//! Lowering of expressions in value position.

use vstd::prelude::*;

use crate::analysis::{classify_virtualizable_hint_path, is_promote_call_path};
use crate::ast::{
    Arm, Block, Expr, expr_matches_local_name, ExprKind, Lit, named_member, Pat, path_last_is, Stmt,
    UnOp,
};
use crate::config::LowererConfig;
use crate::kinds::{Binding, BindingKind, ValueKind};
use crate::lower_spec::{
    arm_literals, arms_testable, array_index, binary_value, block_value, bool_if,
    branch_block_value, branch_value, conditional_value, conditional_value_list, default_arm,
    guard_value, hint_identity, if_value, if_value_tail, index_assign, is_default_arm, macro_list,
    move_int, plain_value, promote_value, scalar_index, scoped_value, state_array_read, state_field,
    state_field_read, vable_array_index, vable_array_len, vable_array_read, vable_field,
    vable_field_index, vable_field_read, value, value_steps,
};
use crate::lowerer::{
    CallMacro, int_reg, Lowerer, no_slots, one_slot, ref_reg, Reject, sequence_view, slot,
    two_slots,
};
use crate::ops::{IntOpcode, LoweredSequence, Op, OpKind};
use crate::patterns::{
    extract_bool_branch_values, extract_pat_literals, is_supported_int_cast, opcode_for_binop,
};
use crate::policy::VirtualizableHintKind;
use crate::text::same_text;

verus! {

// ── Places ───────────────────────────────────────────────────────────

/// The field name of `state.name`.
pub fn state_field_name(expr: &Expr) -> (r: Option<&String>)
    ensures
        match r {
            Some(s) => state_field(*expr) == Some(s@),
            None => state_field(*expr) is None,
        },
{
    match &expr.kind {
        ExprKind::Field(f) => if expr_matches_local_name(&f.base, "state") {
            named_member(&f.member)
        } else {
            None
        },
        _ => None,
    }
}

/// The field name of `v.name`, where `v` is the virtualizable.
pub fn vable_field_name<'b>(config: Option<&LowererConfig>, expr: &'b Expr) -> (r: Option<
    &'b String,
>)
    ensures
        match r {
            Some(s) => vable_field(config, *expr) == Some(s@),
            None => vable_field(config, *expr) is None,
        },
{
    match config {
        Some(c) => match &c.vable_var {
            Some(var) => match &expr.kind {
                ExprKind::Field(f) => if expr_matches_local_name(&f.base, var.as_str()) {
                    named_member(&f.member)
                } else {
                    None
                },
                _ => None,
            },
            None => None,
        },
        None => None,
    }
}

/// Number of a scalar state field.
pub fn scalar_number(config: Option<&LowererConfig>, name: &str) -> (r: Option<u16>)
    ensures
        r == scalar_index(config, name@),
{
    match config {
        Some(c) => match c.state_scalars.get(name) {
            Some(i) => Some(i as u16),
            None => None,
        },
        None => None,
    }
}

/// Number of an array of the state, and whether it is a virtualizable one.
pub fn array_number(config: Option<&LowererConfig>, name: &str) -> (r: Option<(bool, u16)>)
    ensures
        r == array_index(config, name@),
{
    match config {
        Some(c) => match c.state_virt_arrays.get(name) {
            Some(i) => Some((true, i as u16)),
            None => match c.state_arrays.get(name) {
                Some(i) => Some((false, i as u16)),
                None => None,
            },
        },
        None => None,
    }
}

/// Number and type of a field of the virtualizable.
pub fn vable_field_number(config: Option<&LowererConfig>, name: &str) -> (r: Option<
    (u16, ValueKind),
>)
    ensures
        r == vable_field_index(config, name@),
{
    match config {
        Some(c) => match c.vable_fields.get(name) {
            Some(x) => Some((x.0 as u16, x.1)),
            None => None,
        },
        None => None,
    }
}

/// Number and item type of an array of the virtualizable.
pub fn vable_array_number(config: Option<&LowererConfig>, name: &str) -> (r: Option<
    (u16, ValueKind),
>)
    ensures
        r == vable_array_index(config, name@),
{
    match config {
        Some(c) => match c.vable_arrays.get(name) {
            Some(x) => Some((x.0 as u16, x.1)),
            None => None,
        },
        None => None,
    }
}

/// The arguments of the macro call `name!(..)`, if there are at least two.
pub fn macro_call_list<'b>(expr: &'b Expr, name: &str) -> (r: Option<&'b Vec<Expr>>)
    ensures
        match r {
            Some(list) => macro_list(*expr, name@) == Some(*list) && decreases_to!(*expr => *list),
            None => macro_list(*expr, name@) is None,
        },
{
    proof {
        reveal(macro_list);
    }
    match &expr.kind {
        ExprKind::Macro(m) => {
            if !path_last_is(&m.path, name) {
                return None;
            }
            match &m.list {
                Some(list) => if list.len() >= 2 {
                    Some(list)
                } else {
                    None
                },
                None => None,
            }
        },
        _ => None,
    }
}

/// Array, index and value of `array[index] = value`.
pub fn index_assign_parts<'b>(expr: &'b Expr) -> (r: Option<(&'b Expr, &'b Expr, &'b Expr)>)
    ensures
        match r {
            Some((array, index, right)) => {
                &&& index_assign(*expr) == Some((*array, *index, *right))
                &&& decreases_to!(*expr => *index)
                &&& decreases_to!(*expr => *right)
            },
            None => index_assign(*expr) is None,
        },
{
    proof {
        reveal(index_assign);
    }
    match &expr.kind {
        ExprKind::Assign(a) => match &a.left.kind {
            ExprKind::Index(x) => Some((&*x.expr, &*x.index, &*a.right)),
            _ => None,
        },
        _ => None,
    }
}

// ── Match arms ───────────────────────────────────────────────────────

/// Whether an arm is taken by everything that reaches it.
pub fn arm_is_default(arm: &Arm) -> (r: bool)
    ensures
        r == is_default_arm(*arm),
{
    match &arm.pat {
        Pat::Wild => true,
        Pat::Ident(p) => p.subpat.is_none(),
        _ => false,
    }
}

/// The literals of an arm that has some.
pub fn literals_of_arm(arm: &Arm) -> (r: Option<Vec<i64>>)
    ensures
        match r {
            Some(v) => arm_literals(*arm) == Some(v@) && v@.len() > 0,
            None => arm_literals(*arm) is None,
        },
{
    match extract_pat_literals(&arm.pat) {
        Some(v) => if v.len() > 0 {
            Some(v)
        } else {
            None
        },
        None => None,
    }
}

/// Whether every arm is a default arm or consists of literals.
pub fn all_arms_testable(arms: &Vec<Arm>) -> (r: bool)
    ensures
        r == arms_testable(arms@),
{
    let mut i: usize = 0;
    while i < arms.len()
        invariant
            i <= arms.len(),
            forall|j: int|
                0 <= j < i ==> is_default_arm(#[trigger] arms@[j]) || arm_literals(arms@[j]) is Some,
        decreases arms.len() - i,
    {
        if !arm_is_default(&arms[i]) && literals_of_arm(&arms[i]).is_none() {
            assert(!(is_default_arm(arms@[i as int]) || arm_literals(arms@[i as int]) is Some));
            return false;
        }
        i = i + 1;
    }
    true
}

/// The last default arm.
pub fn last_default_arm(arms: &Vec<Arm>) -> (r: Option<usize>)
    ensures
        match r {
            Some(i) => i < arms.len() && default_arm(arms@, arms@.len() as int) == Some(i as int),
            None => default_arm(arms@, arms@.len() as int) is None,
        },
{
    let mut n: usize = arms.len();
    while n > 0
        invariant
            n <= arms.len(),
            default_arm(arms@, arms@.len() as int) == default_arm(arms@, n as int),
        decreases n,
    {
        if arm_is_default(&arms[n - 1]) {
            return Some(n - 1);
        }
        n = n - 1;
    }
    None
}

impl<'a> Lowerer<'a> {
    // ── Reads ────────────────────────────────────────────────────────

    /// `state.field` for a scalar field.
    pub fn lower_state_field_read(&mut self, expr: &Expr) -> (r: Option<Binding>)
        ensures
            final(self)@ == state_field_read(old(self)@, *expr).0,
            r == state_field_read(old(self)@, *expr).1,
    {
        proof {
            reveal(state_field_read);
        }
        let name = match state_field_name(expr) {
            Some(name) => name,
            None => {
                return None;
            },
        };
        let field: u16 = match scalar_number(self.ctx.config, name.as_str()) {
            Some(field) => field,
            None => {
                return None;
            },
        };
        let reg: u16 = self.alloc_reg();
        self.emit_simple(
            OpKind::StateField,
            no_slots(),
            one_slot(int_reg(reg)),
            Op::LoadStateField(field, reg),
        );
        Some(Binding::new_fixed(BindingKind::Int, reg))
    }

    /// `v.field` for a field of the virtualizable `v`.
    pub fn lower_vable_field_read(&mut self, expr: &Expr) -> (r: Option<Binding>)
        ensures
            final(self)@ == vable_field_read(old(self)@, *expr).0,
            r == vable_field_read(old(self)@, *expr).1,
    {
        proof {
            reveal(vable_field_read);
        }
        let name = match vable_field_name(self.ctx.config, expr) {
            Some(name) => name,
            None => {
                return None;
            },
        };
        let (field, ty) = match vable_field_number(self.ctx.config, name.as_str()) {
            Some(x) => x,
            None => {
                return None;
            },
        };
        let base: u16 = match self.vable_base_reg() {
            Some(base) => base,
            None => {
                return None;
            },
        };
        let reg: u16 = self.alloc_reg();
        self.emit_simple(
            OpKind::Vable,
            one_slot(ref_reg(base)),
            one_slot(slot(ty.binding_kind(), reg)),
            Op::VableGetfield(ty, reg, base, field),
        );
        Some(Binding::new_fixed(ty.binding_kind(), reg))
    }

    /// `v.array.len()` for an array of the virtualizable `v`.
    pub fn lower_vable_array_len(&mut self, expr: &Expr) -> (r: Option<Binding>)
        ensures
            final(self)@ == vable_array_len(old(self)@, *expr).0,
            r == vable_array_len(old(self)@, *expr).1,
    {
        proof {
            reveal(vable_array_len);
        }
        let call = match &expr.kind {
            ExprKind::MethodCall(c) => c,
            _ => {
                return None;
            },
        };
        if !same_text(call.method.as_str(), "len") || call.args.len() != 0 {
            return None;
        }
        let name = match vable_field_name(self.ctx.config, &call.receiver) {
            Some(name) => name,
            None => {
                return None;
            },
        };
        let (array, _) = match vable_array_number(self.ctx.config, name.as_str()) {
            Some(x) => x,
            None => {
                return None;
            },
        };
        let base: u16 = match self.vable_base_reg() {
            Some(base) => base,
            None => {
                return None;
            },
        };
        let reg: u16 = self.alloc_reg();
        self.emit_simple(
            OpKind::Vable,
            one_slot(ref_reg(base)),
            one_slot(int_reg(reg)),
            Op::VableArraylen(reg, base, array),
        );
        Some(Binding::new_fixed(BindingKind::Int, reg))
    }

    /// `state.array[index]`.
    pub fn lower_state_array_read(&mut self, expr: &'a Expr) -> (r: Option<Binding>)
        ensures
            final(self)@ == state_array_read(old(self)@, expr).0,
            r == state_array_read(old(self)@, expr).1,
        decreases *expr, 9int,
    {
        let x = match &expr.kind {
            ExprKind::Index(x) => x,
            _ => {
                return None;
            },
        };
        if self.ctx.config.is_none() {
            return None;
        }
        let name = match state_field_name(&x.expr) {
            Some(name) => name,
            None => {
                return None;
            },
        };
        let idx = match self.lower_value_expr(&x.index) {
            Some(b) => b,
            None => {
                return None;
            },
        };
        let reg: u16 = self.alloc_reg();
        let (virt, array) = match array_number(self.ctx.config, name.as_str()) {
            Some(x) => x,
            None => {
                return None;
            },
        };
        let op = if virt {
            Op::LoadStateVarray(array, idx.reg, reg)
        } else {
            Op::LoadStateArray(array, idx.reg, reg)
        };
        self.emit_simple(
            OpKind::StateField,
            one_slot(int_reg(idx.reg)),
            one_slot(int_reg(reg)),
            op,
        );
        Some(Binding::new_fixed(BindingKind::Int, reg))
    }

    /// `v.array[index]` for an array of the virtualizable `v`.
    pub fn lower_vable_array_read(&mut self, expr: &'a Expr) -> (r: Option<Binding>)
        ensures
            final(self)@ == vable_array_read(old(self)@, expr).0,
            r == vable_array_read(old(self)@, expr).1,
        decreases *expr, 9int,
    {
        let x = match &expr.kind {
            ExprKind::Index(x) => x,
            _ => {
                return None;
            },
        };
        let name = match vable_field_name(self.ctx.config, &x.expr) {
            Some(name) => name,
            None => {
                return None;
            },
        };
        let (array, ty) = match vable_array_number(self.ctx.config, name.as_str()) {
            Some(x) => x,
            None => {
                return None;
            },
        };
        let base: u16 = match self.vable_base_reg() {
            Some(base) => base,
            None => {
                return None;
            },
        };
        let idx = match self.lower_value_expr(&x.index) {
            Some(b) => b,
            None => {
                return None;
            },
        };
        let reg: u16 = self.alloc_reg();
        self.emit_simple(
            OpKind::Vable,
            two_slots(ref_reg(base), int_reg(idx.reg)),
            one_slot(slot(ty.binding_kind(), reg)),
            Op::VableGetarrayitem(ty, reg, base, array, idx.reg),
        );
        Some(Binding::new_fixed(ty.binding_kind(), reg))
    }

    /// A call of an identity hint is its argument.
    pub fn lower_vable_hint_identity_call(&mut self, expr: &'a Expr) -> (r: Option<Binding>)
        ensures
            final(self)@ == hint_identity(old(self)@, expr).0,
            r == hint_identity(old(self)@, expr).1,
        decreases *expr, 9int,
    {
        let call = match &expr.kind {
            ExprKind::Call(c) => c,
            _ => {
                return None;
            },
        };
        let hint = match &call.func.kind {
            ExprKind::Path(p) => classify_virtualizable_hint_path(&p.path),
            _ => {
                return None;
            },
        };
        match hint {
            Some(VirtualizableHintKind::AccessDirectly) | Some(
                VirtualizableHintKind::FreshVirtualizable,
            ) => if call.args.len() > 0 {
                self.lower_value_expr(&call.args[0])
            } else {
                None
            },
            _ => None,
        }
    }

    /// `conditional_call_elidable!(value, func, args...)`.
    pub fn lower_conditional_call_elidable(&mut self, expr: &'a Expr) -> (r: Option<Binding>)
        ensures
            final(self)@ == conditional_value(old(self)@, expr).0,
            r == conditional_value(old(self)@, expr).1,
        decreases *expr, 9int,
    {
        match macro_call_list(expr, "conditional_call_elidable") {
            Some(list) => self.lower_conditional_value_list(list),
            None => None,
        }
    }

    /// `conditional_call_elidable!` with its arguments.
    fn lower_conditional_value_list(&mut self, list: &'a Vec<Expr>) -> (r: Option<Binding>)
        ensures
            final(self)@ == conditional_value_list(old(self)@, list).0,
            r == conditional_value_list(old(self)@, list).1,
        decreases *list, list.len() + 2,
    {
        let mac = CallMacro::ConditionalCallElidable;
        if list.len() < 2 {
            return None;
        }
        if list.len() > 6 {
            self.reject(Reject::TooManyArguments(mac));
            return None;
        }
        match self.lower_value_expr(&list[0]) {
            Some(value) => if value.kind == BindingKind::Float {
                self.reject(Reject::FloatOperand(mac));
                None
            } else if value.reg > 255 {
                self.reject(Reject::RegisterIndex(value.reg));
                None
            } else {
                match self.lower_macro_args(list, mac) {
                    Some(args) => self.finish_conditional_value(&list[1], value, &args),
                    None => None,
                }
            },
            None => None,
        }
    }

    // ── Values ───────────────────────────────────────────────────────

    /// Lowers an expression in value position.
    pub fn lower_value_expr(&mut self, expr: &'a Expr) -> (r: Option<Binding>)
        ensures
            final(self)@ == value(old(self)@, expr).0,
            r == value(old(self)@, expr).1,
        decreases *expr, 12int,
    {
        self.lower_value_steps(expr)
    }

    fn lower_value_steps(&mut self, expr: &'a Expr) -> (r: Option<Binding>)
        ensures
            final(self)@ == value_steps(old(self)@, expr).0,
            r == value_steps(old(self)@, expr).1,
        decreases *expr, 10int,
    {
        if let Some(b) = self.lower_state_field_read(expr) {
            return Some(b);
        }
        if let Some(b) = self.lower_state_array_read(expr) {
            return Some(b);
        }
        if let Some(b) = self.lower_vable_field_read(expr) {
            return Some(b);
        }
        if let Some(b) = self.lower_vable_array_read(expr) {
            return Some(b);
        }
        if let Some(b) = self.lower_vable_array_len(expr) {
            return Some(b);
        }
        if let Some(b) = self.lower_vable_hint_identity_call(expr) {
            return Some(b);
        }
        if let Some(b) = self.lower_conditional_call_elidable(expr) {
            return Some(b);
        }
        self.lower_plain_value(expr)
    }

    fn lower_plain_value(&mut self, expr: &'a Expr) -> (r: Option<Binding>)
        ensures
            final(self)@ == plain_value(old(self)@, expr).0,
            r == plain_value(old(self)@, expr).1,
        decreases *expr, 9int,
    {
        match &expr.kind {
            ExprKind::Lit(lit) => match lit {
                Lit::Int(v) => match v {
                    Some(v) => {
                        let reg: u16 = self.alloc_reg();
                        self.emit_simple(
                            OpKind::LoadConstI,
                            no_slots(),
                            one_slot(int_reg(reg)),
                            Op::LoadConst(reg, *v),
                        );
                        Some(Binding::new_fixed(BindingKind::Int, reg))
                    },
                    None => None,
                },
                Lit::Other => None,
            },
            ExprKind::Path(p) => match p.path.get_ident() {
                Some(name) => self.bindings.get(name.as_str()),
                None => None,
            },
            ExprKind::Cast(c) => if is_supported_int_cast(&c.ty) {
                match self.lower_value_expr(&c.expr) {
                    Some(b) => if b.kind == BindingKind::Int {
                        Some(b)
                    } else {
                        None
                    },
                    None => None,
                }
            } else {
                None
            },
            ExprKind::Paren(x) => self.lower_value_expr(x),
            ExprKind::If(_) => self.lower_if_value(expr),
            ExprKind::Match(_) => self.lower_match_value(expr),
            ExprKind::Unary(u) => match u.op {
                UnOp::Neg => {
                    let inner = match self.lower_value_expr(&u.expr) {
                        Some(b) => b,
                        None => {
                            return None;
                        },
                    };
                    if inner.kind != BindingKind::Int {
                        return None;
                    }
                    let reg: u16 = self.alloc_reg();
                    self.emit_simple(
                        OpKind::UnaryI,
                        one_slot(int_reg(inner.reg)),
                        one_slot(int_reg(reg)),
                        Op::IntNeg(reg, inner.reg),
                    );
                    Some(
                        Binding {
                            reg,
                            kind: BindingKind::Int,
                            depends_on_stack: inner.depends_on_stack,
                        },
                    )
                },
                _ => None,
            },
            ExprKind::Binary(_) => self.lower_binary(expr),
            ExprKind::Call(_) => {
                if let Some(b) = self.lower_promote_call(expr) {
                    return Some(b);
                }
                self.lower_call_value(expr)
            },
            ExprKind::MethodCall(_) => self.lower_method_call_value(expr),
            _ => None,
        }
    }

    /// A binary operation on integers.
    pub fn lower_binary(&mut self, expr: &'a Expr) -> (r: Option<Binding>)
        ensures
            final(self)@ == binary_value(old(self)@, expr).0,
            r == binary_value(old(self)@, expr).1,
        decreases *expr, 8int,
    {
        let b = match &expr.kind {
            ExprKind::Binary(b) => b,
            _ => {
                return None;
            },
        };
        let lhs = match self.lower_value_expr(&b.left) {
            Some(x) => x,
            None => {
                return None;
            },
        };
        let rhs = match self.lower_value_expr(&b.right) {
            Some(x) => x,
            None => {
                return None;
            },
        };
        if lhs.kind != BindingKind::Int || rhs.kind != BindingKind::Int {
            return None;
        }
        let opcode = match opcode_for_binop(b.op) {
            Some(opcode) => opcode,
            None => {
                return None;
            },
        };
        let reg: u16 = self.alloc_reg();
        self.emit_simple(
            OpKind::BinopI,
            two_slots(int_reg(lhs.reg), int_reg(rhs.reg)),
            one_slot(int_reg(reg)),
            Op::Binop(reg, opcode, lhs.reg, rhs.reg),
        );
        Some(
            Binding {
                reg,
                kind: BindingKind::Int,
                depends_on_stack: lhs.depends_on_stack || rhs.depends_on_stack,
            },
        )
    }

    /// Pins a value: a live marker and a guard.
    pub fn emit_guard_value(&mut self, b: Binding)
        ensures
            final(self)@ == guard_value(old(self)@, b),
    {
        proof {
            reveal(guard_value);
        }
        self.emit_live();
        self.emit_simple(
            OpKind::GuardValue,
            one_slot(slot(b.kind, b.reg)),
            no_slots(),
            Op::GuardValue(b.kind, b.reg),
        );
    }

    /// `promote(x)`: the value is pinned and is the result.
    pub fn lower_promote_call(&mut self, expr: &'a Expr) -> (r: Option<Binding>)
        ensures
            final(self)@ == promote_value(old(self)@, expr).0,
            r == promote_value(old(self)@, expr).1,
        decreases *expr, 8int,
    {
        let call = match &expr.kind {
            ExprKind::Call(c) => c,
            _ => {
                return None;
            },
        };
        if !is_promote_call_path(&call.func) || call.args.len() != 1 {
            return None;
        }
        match self.lower_value_expr(&call.args[0]) {
            Some(b) => {
                self.emit_guard_value(b);
                Some(b)
            },
            None => None,
        }
    }

    // ── Branches with values ─────────────────────────────────────────

    /// `dst := src` for integers.
    pub fn emit_move_int(&mut self, dst: u16, src: u16)
        ensures
            final(self)@ == move_int(old(self)@, dst, src),
    {
        proof {
            reveal(move_int);
        }
        self.emit_simple(
            OpKind::MoveI,
            one_slot(int_reg(src)),
            one_slot(int_reg(dst)),
            Op::MoveI(dst, src),
        );
    }

    /// `if` in value position.
    pub fn lower_if_value(&mut self, expr: &'a Expr) -> (r: Option<Binding>)
        ensures
            final(self)@ == if_value(old(self)@, expr).0,
            r == if_value(old(self)@, expr).1,
        decreases *expr, 8int,
    {
        proof {
            reveal(if_value_tail);
        }
        if let Some(b) = self.lower_bool_if(expr) {
            return Some(b);
        }
        let expr_if = match &expr.kind {
            ExprKind::If(i) => i,
            _ => {
                return None;
            },
        };
        let cond = match self.lower_value_expr(&expr_if.cond) {
            Some(b) => b,
            None => {
                return None;
            },
        };
        if cond.kind != BindingKind::Int {
            return None;
        }
        let else_expr = match &expr_if.else_branch {
            Some(x) => x,
            None => {
                return None;
            },
        };
        let else_label = self.alloc_label();
        let end_label = self.alloc_label();
        let dst: u16 = self.alloc_reg();
        let (then_seq, then_binding) = match self.lower_branch_block_value(
            &expr_if.then_branch.stmts,
        ) {
            Some(x) => x,
            None => {
                return None;
            },
        };
        let (else_seq, else_binding) = match self.lower_branch_value_expr(else_expr) {
            Some(x) => x,
            None => {
                return None;
            },
        };
        if then_binding.kind != BindingKind::Int || else_binding.kind != BindingKind::Int {
            return None;
        }
        self.emit_aux(Op::NewLabel(else_label));
        self.emit_aux(Op::NewLabel(end_label));
        self.emit_live();
        self.emit_conditional_guard(cond.reg, else_label);
        self.append_lowered_sequence(then_seq);
        self.emit_move_int(dst, then_binding.reg);
        self.emit_jump(end_label);
        self.emit_label_def(else_label);
        self.append_lowered_sequence(else_seq);
        self.emit_move_int(dst, else_binding.reg);
        self.emit_label_def(end_label);
        Some(
            Binding {
                reg: dst,
                kind: BindingKind::Int,
                depends_on_stack: cond.depends_on_stack || then_binding.depends_on_stack
                    || else_binding.depends_on_stack,
            },
        )
    }

    /// An `if` whose branches are 0 and 1 is its condition or the negation.
    pub fn lower_bool_if(&mut self, expr: &'a Expr) -> (r: Option<Binding>)
        ensures
            final(self)@ == bool_if(old(self)@, expr).0,
            r == bool_if(old(self)@, expr).1,
        decreases *expr, 7int,
    {
        let expr_if = match &expr.kind {
            ExprKind::If(i) => i,
            _ => {
                return None;
            },
        };
        let (then_value, else_value) = match extract_bool_branch_values(expr_if) {
            Some(x) => x,
            None => {
                return None;
            },
        };
        let cond = match self.lower_value_expr(&expr_if.cond) {
            Some(b) => b,
            None => {
                return None;
            },
        };
        if cond.kind != BindingKind::Int {
            return None;
        }
        if then_value == 1 && else_value == 0 {
            Some(cond)
        } else if then_value == 0 && else_value == 1 {
            let zero: u16 = self.alloc_reg();
            self.emit_simple(
                OpKind::LoadConstI,
                no_slots(),
                one_slot(int_reg(zero)),
                Op::LoadConst(zero, 0),
            );
            let reg: u16 = self.alloc_reg();
            self.emit_simple(
                OpKind::BinopI,
                two_slots(int_reg(cond.reg), int_reg(zero)),
                one_slot(int_reg(reg)),
                Op::Binop(reg, IntOpcode::IntEq, cond.reg, zero),
            );
            Some(
                Binding {
                    reg,
                    kind: BindingKind::Int,
                    depends_on_stack: cond.depends_on_stack,
                },
            )
        } else {
            None
        }
    }

    /// A branch with a value, lowered by itself.
    pub fn lower_branch_value_expr(&mut self, expr: &'a Expr) -> (r: Option<
        (LoweredSequence<'a>, Binding),
    >)
        ensures
            final(self)@ == branch_value(old(self)@, expr).0,
            match r {
                Some((seq, b)) => branch_value(old(self)@, expr).1 == Some((sequence_view(seq), b)),
                None => branch_value(old(self)@, expr).1 is None,
            },
        decreases *expr, 14int,
    {
        let mut nested = self.start_branch();
        match nested.lower_scoped_value_expr(expr) {
            Some(b) => {
                self.join_branch(&nested);
                Some(
                    (
                        LoweredSequence {
                            statements: nested.statements,
                            op_metadata: nested.op_metadata,
                        },
                        b,
                    ),
                )
            },
            None => {
                self.abandon_branch(&nested);
                None
            },
        }
    }

    /// A block with a value, lowered by itself.
    pub fn lower_branch_block_value(&mut self, stmts: &'a Vec<Stmt>) -> (r: Option<
        (LoweredSequence<'a>, Binding),
    >)
        ensures
            final(self)@ == branch_block_value(old(self)@, stmts).0,
            match r {
                Some((seq, b)) => branch_block_value(old(self)@, stmts).1 == Some(
                    (sequence_view(seq), b),
                ),
                None => branch_block_value(old(self)@, stmts).1 is None,
            },
        decreases *stmts, stmts.len() + 2,
    {
        let mut nested = self.start_branch();
        match nested.lower_block_value(stmts) {
            Some(b) => {
                self.join_branch(&nested);
                Some(
                    (
                        LoweredSequence {
                            statements: nested.statements,
                            op_metadata: nested.op_metadata,
                        },
                        b,
                    ),
                )
            },
            None => {
                self.abandon_branch(&nested);
                None
            },
        }
    }

    /// A value, or the value of a block's last expression.
    pub fn lower_scoped_value_expr(&mut self, expr: &'a Expr) -> (r: Option<Binding>)
        ensures
            final(self)@ == scoped_value(old(self)@, expr).0,
            r == scoped_value(old(self)@, expr).1,
        decreases *expr, 13int,
    {
        match &expr.kind {
            ExprKind::Block(b) => self.lower_block_value(&b.stmts),
            _ => self.lower_value_expr(expr),
        }
    }

    /// The statements of a block and the value of its last expression.
    pub fn lower_block_value(&mut self, stmts: &'a Vec<Stmt>) -> (r: Option<Binding>)
        ensures
            final(self)@ == block_value(old(self)@, stmts).0,
            r == block_value(old(self)@, stmts).1,
        decreases *stmts, stmts.len() + 1,
    {
        if stmts.len() == 0 {
            return None;
        }
        let last: usize = stmts.len() - 1;
        if self.lower_stmts(stmts, 0, last).is_none() {
            return None;
        }
        match &stmts[last] {
            Stmt::Expr(e, semi) => if !*semi {
                self.lower_value_expr(e)
            } else {
                None
            },
            _ => None,
        }
    }

    // ── Match ────────────────────────────────────────────────────────

}

} // verus!
