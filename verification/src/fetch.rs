//! The statements of a dispatch loop that fetch the opcode and its argument.

use vstd::prelude::*;

use crate::ast::{
    BinOp, Expr, expr_int_literal_value, expr_single_ident, ExprKind, int_literal, Local,
    single_ident, single_ident_is, Stmt,
};
use crate::growth::{group_steps, grows, grows_further, grows_reg_taken, grows_self};
use crate::kinds::{Binding, BindingKind};
use crate::lowerer::{
    int_reg, int_slot, Lowerer, LowerState, no_slots, one_slot, ref_reg, ref_slot, two_slots,
};
use crate::ops::{IntOpcode, Op, OpKind};
use crate::patterns::{let_name, pat_bound_ident_name};
use crate::text::{lookup, same_text};

verus! {

// ── Reading a byte of the program ────────────────────────────────────

/// `dst := program[index]`.
#[verifier::opaque]
pub open spec fn load_byte<'a>(s: LowerState<'a>, dst: u16, program: u16, index: u16) -> LowerState<
    'a,
> {
    s.emit_op(
        OpKind::Vable,
        seq![ref_slot(program), int_slot(index)],
        seq![int_slot(dst)],
        Op::GetarrayitemGcI(dst, program, index),
    )
}

/// `dst := a op constant`, by way of the register `c`.
#[verifier::opaque]
pub open spec fn combine_const<'a>(
    s: LowerState<'a>,
    dst: u16,
    opcode: IntOpcode,
    a: u16,
    c: u16,
) -> LowerState<'a> {
    s.emit_op(
        OpKind::BinopI,
        seq![int_slot(a), int_slot(c)],
        seq![int_slot(dst)],
        Op::Binop(dst, opcode, a, c),
    )
}

#[verifier::opaque]
pub open spec fn load_const<'a>(s: LowerState<'a>, dst: u16, v: i64) -> LowerState<'a> {
    s.emit_op(OpKind::LoadConstI, seq![], seq![int_slot(dst)], Op::LoadConst(dst, v))
}

#[verifier::opaque]
pub open spec fn load_named<'a>(s: LowerState<'a>, dst: u16, name: &'a String) -> LowerState<'a> {
    s.emit_op(OpKind::LoadConstI, seq![], seq![int_slot(dst)], Op::LoadNamedConst(dst, name))
}

/// The positive constant of `pc + constant`.
#[verifier::opaque]
pub open spec fn pc_offset(idx: Expr) -> Option<i64> {
    match idx.kind {
        ExprKind::Binary(b) => if b.op is Add && single_ident_is(*b.left, "pc"@) {
            match int_literal(*b.right) {
                Some(v) => if v > 0 {
                    Some(v)
                } else {
                    None
                },
                None => None,
            }
        } else {
            None
        },
        _ => None,
    }
}

/// The register that holds the index `pc` or `pc + constant`.
#[verifier::opaque]
pub open spec fn index_register<'a>(s: LowerState<'a>, idx: Expr) -> (LowerState<'a>, Option<u16>) {
    match (single_ident(idx), lookup(s.bindings, "pc"@)) {
        (Some(name), Some(pc)) => if name@ == "pc"@ {
            (s, Some(pc.reg))
        } else {
            (s, None)
        },
        (None, Some(pc)) => match pc_offset(idx) {
            Some(v) => {
                let c = s.next_reg;
                let s1 = load_const(s.reg_taken(), c, v);
                let offset = s1.next_reg;
                (
                    combine_const(s1.reg_taken(), offset, IntOpcode::IntAdd, pc.reg, c),
                    Some(offset),
                )
            },
            None => (s, None),
        },
        _ => (s, None),
    }
}

/// The expression under one cast.
pub open spec fn without_cast(e: Expr) -> Expr {
    match e.kind {
        ExprKind::Cast(c) => *c.expr,
        _ => e,
    }
}

pub fn unwrap_cast(e: &Expr) -> (r: &Expr)
    ensures
        *r == without_cast(*e),
{
    match &e.kind {
        ExprKind::Cast(c) => &c.expr,
        _ => e,
    }
}

/// The index of `let .. = program[index]`, with or without a cast.
#[verifier::opaque]
pub open spec fn program_index(l: Local) -> Option<Expr> {
    match l.init {
        Some(init) => match without_cast(*init.expr).kind {
            ExprKind::Index(x) => if single_ident_is(*x.expr, "program"@) {
                Some(*x.index)
            } else {
                None
            },
            _ => None,
        },
        None => None,
    }
}

/// Whether the expression is the unqualified one-segment path `name`.
pub fn is_single_ident(e: &Expr, name: &str) -> (r: bool)
    ensures
        r == single_ident_is(*e, name@),
{
    match expr_single_ident(e) {
        Some(s) => same_text(s.as_str(), name),
        None => false,
    }
}

pub fn program_index_of(l: &Local) -> (r: Option<&Expr>)
    ensures
        match r {
            Some(x) => program_index(*l) == Some(*x),
            None => program_index(*l) is None,
        },
{
    proof {
        reveal(program_index);
    }
    match &l.init {
        Some(init) => match &unwrap_cast(&init.expr).kind {
            ExprKind::Index(x) => if is_single_ident(&x.expr, "program") {
                Some(&*x.index)
            } else {
                None
            },
            _ => None,
        },
        None => None,
    }
}

fn pc_offset_of(idx: &Expr) -> (r: Option<i64>)
    ensures
        r == pc_offset(*idx),
{
    proof {
        reveal(pc_offset);
    }
    match &idx.kind {
        ExprKind::Binary(b) => if b.op == BinOp::Add && is_single_ident(&b.left, "pc") {
            match expr_int_literal_value(&b.right) {
                Some(v) => if v > 0 {
                    Some(v)
                } else {
                    None
                },
                None => None,
            }
        } else {
            None
        },
        _ => None,
    }
}

impl<'a> Lowerer<'a> {
    pub fn load_byte(&mut self, dst: u16, program: u16, index: u16)
        ensures
            final(self)@ == load_byte(old(self)@, dst, program, index),
    {
        proof {
            reveal(load_byte);
        }
        self.emit_simple(
            OpKind::Vable,
            two_slots(ref_reg(program), int_reg(index)),
            one_slot(int_reg(dst)),
            Op::GetarrayitemGcI(dst, program, index),
        );
    }

    pub fn combine_const(&mut self, dst: u16, opcode: IntOpcode, a: u16, c: u16)
        ensures
            final(self)@ == combine_const(old(self)@, dst, opcode, a, c),
    {
        proof {
            reveal(combine_const);
        }
        self.emit_simple(
            OpKind::BinopI,
            two_slots(int_reg(a), int_reg(c)),
            one_slot(int_reg(dst)),
            Op::Binop(dst, opcode, a, c),
        );
    }

    pub fn load_const(&mut self, dst: u16, v: i64)
        ensures
            final(self)@ == load_const(old(self)@, dst, v),
    {
        proof {
            reveal(load_const);
        }
        self.emit_simple(
            OpKind::LoadConstI,
            no_slots(),
            one_slot(int_reg(dst)),
            Op::LoadConst(dst, v),
        );
    }

    pub fn load_named(&mut self, dst: u16, name: &'a String)
        ensures
            final(self)@ == load_named(old(self)@, dst, name),
    {
        proof {
            reveal(load_named);
        }
        self.emit_simple(
            OpKind::LoadConstI,
            no_slots(),
            one_slot(int_reg(dst)),
            Op::LoadNamedConst(dst, name),
        );
    }

    /// The register that holds the index `pc` or `pc + constant`.
    pub fn lower_array_index_expr(&mut self, idx_expr: &Expr) -> (r: Option<u16>)
        ensures
            final(self)@ == index_register(old(self)@, *idx_expr).0,
            r == index_register(old(self)@, *idx_expr).1,
    {
        proof {
            reveal(index_register);
        }
        let pc = match self.bindings.get("pc") {
            Some(pc) => pc,
            None => {
                return None;
            },
        };
        if let Some(name) = expr_single_ident(idx_expr) {
            if same_text(name.as_str(), "pc") {
                return Some(pc.reg);
            }
            return None;
        }
        match pc_offset_of(idx_expr) {
            Some(v) => {
                let c = self.alloc_reg();
                self.load_const(c, v);
                let offset = self.alloc_reg();
                self.combine_const(offset, IntOpcode::IntAdd, pc.reg, c);
                Some(offset)
            },
            None => None,
        }
    }
}

// ── Opcode fetch ─────────────────────────────────────────────────────

/// `let name = program[index]`: the byte gets a register, and `name` becomes
/// the opcode variable.
#[verifier::opaque]
pub open spec fn fetch_byte<'a>(s: LowerState<'a>, l: &'a Local) -> (LowerState<'a>, bool) {
    match (program_index(*l), lookup(s.bindings, "program"@)) {
        (Some(idx), Some(program)) => match index_register(s, idx) {
            (s1, Some(index)) => {
                let dst = s1.next_reg;
                let s2 = load_byte(s1.reg_taken(), dst, program.reg, index);
                match let_name(l.pat) {
                    Some(name) => (
                        LowerState {
                            opcode_var: Some(&name),
                            ..s2.bind(name@, Binding::fixed(BindingKind::Int, dst))
                        },
                        true,
                    ),
                    None => (s2, true),
                }
            },
            (s1, None) => (s1, false),
        },
        _ => (s, false),
    }
}

/// Variable and constant of `name += constant` or `name = name + constant`.
#[verifier::opaque]
pub open spec fn increment(stmt: Stmt) -> Option<(Seq<char>, i64)> {
    match stmt {
        Stmt::Expr(e, _) => match e.kind {
            ExprKind::Binary(b) => if b.op is AddAssign {
                match (single_ident(*b.left), int_literal(*b.right)) {
                    (Some(name), Some(n)) => Some((name@, n)),
                    _ => None,
                }
            } else {
                None
            },
            ExprKind::Assign(a) => match (single_ident(*a.left), a.right.kind) {
                (Some(name), ExprKind::Binary(b)) => if b.op is Add && single_ident_is(
                    *b.left,
                    name@,
                ) {
                    match int_literal(*b.right) {
                        Some(n) => Some((name@, n)),
                        None => None,
                    }
                } else {
                    None
                },
                _ => None,
            },
            _ => None,
        },
        _ => None,
    }
}

/// `pc += n` for a positive `n`.
#[verifier::opaque]
pub open spec fn advance_pc<'a>(s: LowerState<'a>, stmt: Stmt) -> (LowerState<'a>, bool) {
    match (increment(stmt), lookup(s.bindings, "pc"@)) {
        (Some((name, n)), Some(pc)) => if name == "pc"@ && n > 0 {
            let c = s.next_reg;
            (
                combine_const(
                    load_const(s.reg_taken(), c, n),
                    pc.reg,
                    IntOpcode::IntAdd,
                    pc.reg,
                    c,
                ),
                true,
            )
        } else {
            (s, false)
        },
        _ => (s, false),
    }
}

/// A statement that fetches a byte of the program or advances `pc`.
#[verifier::opaque]
pub open spec fn opcode_fetch<'a>(s: LowerState<'a>, stmt: &'a Stmt) -> (LowerState<'a>, bool) {
    match *stmt {
        Stmt::Local(l) => fetch_byte(s, &l),
        _ => advance_pc(s, *stmt),
    }
}

/// Variable and constant of `name += constant` or `name = name + constant`.
pub fn match_pc_increment_stmt(stmt: &Stmt) -> (r: Option<(&String, i64)>)
    ensures
        match r {
            Some((name, n)) => increment(*stmt) == Some((name@, n)),
            None => increment(*stmt) is None,
        },
{
    proof {
        reveal(increment);
    }
    let e = match stmt {
        Stmt::Expr(e, _) => e,
        _ => {
            return None;
        },
    };
    match &e.kind {
        ExprKind::Binary(b) => {
            if b.op == BinOp::AddAssign {
                if let Some(name) = expr_single_ident(&b.left) {
                    if let Some(n) = expr_int_literal_value(&b.right) {
                        return Some((name, n));
                    }
                }
            }
            None
        },
        ExprKind::Assign(a) => {
            if let Some(name) = expr_single_ident(&a.left) {
                if let ExprKind::Binary(b) = &a.right.kind {
                    if b.op == BinOp::Add && is_single_ident(&b.left, name.as_str()) {
                        if let Some(n) = expr_int_literal_value(&b.right) {
                            return Some((name, n));
                        }
                    }
                }
            }
            None
        },
        _ => None,
    }
}

impl<'a> Lowerer<'a> {
    fn try_fetch_byte(&mut self, local: &'a Local) -> (r: bool)
        ensures
            final(self)@ == fetch_byte(old(self)@, local).0,
            r == fetch_byte(old(self)@, local).1,
    {
        proof {
            reveal(fetch_byte);
        }
        let idx = match program_index_of(local) {
            Some(idx) => idx,
            None => {
                return false;
            },
        };
        let program = match self.bindings.get("program") {
            Some(program) => program,
            None => {
                return false;
            },
        };
        match self.lower_array_index_expr(idx) {
            Some(index) => {
                let dst = self.alloc_reg();
                self.load_byte(dst, program.reg, index);
                if let Some(name) = pat_bound_ident_name(&local.pat) {
                    self.bind(name.clone(), Binding::new_fixed(BindingKind::Int, dst));
                    self.opcode_var_name = Some(name);
                }
                true
            },
            None => false,
        }
    }

    fn try_advance_pc(&mut self, stmt: &Stmt) -> (r: bool)
        ensures
            final(self)@ == advance_pc(old(self)@, *stmt).0,
            r == advance_pc(old(self)@, *stmt).1,
    {
        proof {
            reveal(advance_pc);
        }
        if let Some((name, n)) = match_pc_increment_stmt(stmt) {
            if same_text(name.as_str(), "pc") && n > 0 {
                if let Some(pc) = self.bindings.get("pc") {
                    let c = self.alloc_reg();
                    self.load_const(c, n);
                    self.combine_const(pc.reg, IntOpcode::IntAdd, pc.reg, c);
                    return true;
                }
            }
        }
        false
    }

    /// Lowers a statement that fetches a byte of the program or advances `pc`.
    pub fn try_lower_opcode_fetch_stmt(&mut self, stmt: &'a Stmt) -> (r: bool)
        ensures
            final(self)@ == opcode_fetch(old(self)@, stmt).0,
            r == opcode_fetch(old(self)@, stmt).1,
    {
        proof {
            reveal(opcode_fetch);
        }
        match stmt {
            Stmt::Local(l) => self.try_fetch_byte(l),
            _ => self.try_advance_pc(stmt),
        }
    }
}

// ── Growth ───────────────────────────────────────────────────────────

pub broadcast proof fn grows_load_byte<'a>(s: LowerState<'a>, dst: u16, program: u16, index: u16)
    ensures
        grows(s, #[trigger] load_byte(s, dst, program, index)),
{
    broadcast use group_steps;

    reveal(load_byte);
}

pub broadcast proof fn grows_combine_const<'a>(
    s: LowerState<'a>,
    dst: u16,
    opcode: IntOpcode,
    a: u16,
    c: u16,
)
    ensures
        grows(s, #[trigger] combine_const(s, dst, opcode, a, c)),
{
    broadcast use group_steps;

    reveal(combine_const);
}

pub broadcast proof fn grows_load_const<'a>(s: LowerState<'a>, dst: u16, v: i64)
    ensures
        grows(s, #[trigger] load_const(s, dst, v)),
{
    broadcast use group_steps;

    reveal(load_const);
}

pub broadcast proof fn grows_load_named<'a>(s: LowerState<'a>, dst: u16, name: &'a String)
    ensures
        grows(s, #[trigger] load_named(s, dst, name)),
{
    broadcast use group_steps;

    reveal(load_named);
}

pub broadcast proof fn grows_index_register<'a>(s: LowerState<'a>, idx: Expr)
    ensures
        grows(s, (#[trigger] index_register(s, idx)).0),
{
    broadcast use {
        grows_self,
        grows_further,
        grows_reg_taken,
        grows_load_const,
        grows_combine_const,
    };

    reveal(index_register);
}

/// A statement that fetches a byte or advances `pc` only adds.
pub broadcast proof fn grows_opcode_fetch<'a>(s: LowerState<'a>, stmt: &'a Stmt)
    ensures
        grows(s, (#[trigger] opcode_fetch(s, stmt)).0),
{
    broadcast use {
        grows_self,
        grows_further,
        grows_reg_taken,
        grows_load_const,
        grows_combine_const,
        grows_load_byte,
        grows_index_register,
    };

    reveal(opcode_fetch);
    reveal(fetch_byte);
    reveal(advance_pc);
    if let Stmt::Local(l) = *stmt {
        if let (Some(idx), Some(program)) = (program_index(l), lookup(s.bindings, "program"@)) {
            if let (s1, Some(index)) = index_register(s, idx) {
                let dst = s1.next_reg;
                let s2 = load_byte(s1.reg_taken(), dst, program.reg, index);
                assert(grows(s, s2));
                reveal(grows);
                reveal(LowerState::bind);
            }
        }
    }
}

} // verus!
