//! What the code of an expression computes.

use vstd::prelude::*;

use vstd::arithmetic::div_mod::{lemma_div_is_ordered_by_denominator, lemma_fundamental_div_mod};

use crate::analysis::is_promote;
use crate::ast::{
    BinOp, Expr, ExprBinary, ExprCall, ExprIf, ExprIndex, ExprKind, ExprMethodCall, ExprPath,
    ExprUnary, Lit, path_ident, segment_names,
};
use crate::code_runs::{
    held, later, lemma_emitted_op, lemma_live, lemma_ran_both, lemma_ran_none, lemma_ran_one,
    lemma_ran_op, lemma_taken, ran,
};
use crate::growth_forms::grows_value;
use crate::kinds::{Binding, BindingKind};
use crate::lower_spec::{
    array_index, bool_if, call_value, guard_value, hint_identity, macro_list, method_value,
    plain_value, scalar_index, state_array_read, state_field, state_field_read, vable_array_index,
    vable_array_len, vable_array_read, vable_field, vable_field_index, vable_field_read, value,
};
use crate::lowerer::{int_slot, LowerState, ref_slot, Slot, vable_base};
use crate::machine::{apply, Event, Machine, meaning, op_effect, World};
use crate::ops::{Instr, IntOpcode, Op, OpKind};
use crate::patterns::{assign_opcode, binop_opcode, bool_branches, is_int_type};
use crate::policy::{hint_of_segments, VirtualizableHintKind};

verus! {

// ── Operators ────────────────────────────────────────────────────────

/// The operator that a compound assignment applies.
pub open spec fn assigned_operator(op: BinOp) -> Option<BinOp> {
    match op {
        BinOp::AddAssign => Some(BinOp::Add),
        BinOp::SubAssign => Some(BinOp::Sub),
        BinOp::MulAssign => Some(BinOp::Mul),
        BinOp::DivAssign => Some(BinOp::Div),
        BinOp::RemAssign => Some(BinOp::Rem),
        BinOp::BitXorAssign => Some(BinOp::BitXor),
        BinOp::BitAndAssign => Some(BinOp::BitAnd),
        BinOp::BitOrAssign => Some(BinOp::BitOr),
        BinOp::ShlAssign => Some(BinOp::Shl),
        BinOp::ShrAssign => Some(BinOp::Shr),
        _ => None,
    }
}

/// Whether an operator has an integer for a value and looks at both operands.
pub open spec fn is_word_operator(op: BinOp) -> bool {
    match op {
        BinOp::And | BinOp::Or => false,
        _ => assigned_operator(op) is None,
    }
}

/// The operation of an operator computes what the operator means, and every
/// operator on integers has one.
pub proof fn law_operation_computes_the_operator(op: BinOp, a: i64, b: i64)
    ensures
        binop_opcode(op) is Some == is_word_operator(op),
        match (binop_opcode(op), meaning(op, a, b)) {
            (Some(opcode), Some(v)) => apply(opcode, a, b) == v,
            _ => true,
        },
{
    let x = a as int;
    let y = b as int;
    if a >= 0 && b > 0 {
        lemma_fundamental_div_mod(x, y);
        lemma_div_is_ordered_by_denominator(x, 1, y);
        assert(0 <= x / y) by (nonlinear_arith)
            requires
                x >= 0,
                y > 0,
        ;
        assert(0 <= x % y <= x) by (nonlinear_arith)
            requires
                x >= 0,
                y > 0,
        ;
    }
}

/// The operation of a compound assignment is the one of its operator.
pub proof fn law_assignment_uses_its_operator(op: BinOp)
    ensures
        assign_opcode(op) is Some == assigned_operator(op) is Some,
        assigned_operator(op) matches Some(plain) ==> assign_opcode(op) == binop_opcode(plain),
{
}

// ── Forms ────────────────────────────────────────────────────────────

/// Whether an expression is neither an access to a place nor a call.
pub open spec fn is_plain(e: Expr) -> bool {
    match e.kind {
        ExprKind::Field(_)
        | ExprKind::Index(_)
        | ExprKind::Call(_)
        | ExprKind::MethodCall(_)
        | ExprKind::Macro(_) => false,
        _ => true,
    }
}

pub proof fn lemma_plain<'a>(s: LowerState<'a>, e: &'a Expr)
    requires
        is_plain(*e),
    ensures
        value(s, e) == plain_value(s, e),
{
    reveal(state_field_read);
    reveal(vable_field_read);
    reveal(vable_array_len);
    reveal(macro_list);
}

/// Whether a register was handed out between two states.
pub open spec fn fresh<'a>(s: LowerState<'a>, t: LowerState<'a>, reg: u16) -> bool {
    s.next_reg <= reg < t.next_reg
}

/// Whether lowering an expression gave a register.
pub open spec fn lowered<'a>(r: (LowerState<'a>, Option<Binding>)) -> bool {
    r.1 is Some && r.0.rejected is None
}

/// A fresh register and an operation that writes it.
proof fn lemma_result<'a>(
    w: World<'a>,
    s: LowerState<'a>,
    t: LowerState<'a>,
    kind: OpKind,
    reads: Seq<Slot>,
    bank: BindingKind,
    op: Op<'a>,
    m: Machine<'a>,
    n: Machine<'a>,
)
    requires
        ran(w, s, t, m, n),
        t.reg_taken().emit_op(
            kind,
            reads,
            seq![Slot { kind: bank, reg: t.next_reg }],
            op,
        ).rejected is None,
        crate::machine::control(Instr::Op(op), n) is Falls,
    ensures
        ({
            let u = t.reg_taken().emit_op(
                kind,
                reads,
                seq![Slot { kind: bank, reg: t.next_reg }],
                op,
            );
            &&& ran(w, s, u, m, op_effect(w, op, n))
            &&& fresh(t, u, t.next_reg)
            &&& later(t, u)
        }),
{
    lemma_taken(t);
    lemma_ran_none(w, t, t.reg_taken(), n);
    lemma_ran_both(w, s, t, t.reg_taken(), m, n, n);
    let writes = seq![Slot { kind: bank, reg: t.next_reg }];
    lemma_ran_op(w, s, t.reg_taken(), kind, reads, writes, op, m, n);
    assert(writes[0].reg == t.next_reg);
}

/// The code of a literal puts the literal into a fresh register and changes
/// nothing else.
pub proof fn law_literal_has_its_value<'a>(
    w: World<'a>,
    s: LowerState<'a>,
    e: &'a Expr,
    v: i64,
    m: Machine<'a>,
)
    requires
        e.kind == ExprKind::Lit(Lit::Int(Some(v))),
        value(s, e).0.rejected is None,
    ensures
        ({
            let (t, r) = value(s, e);
            &&& r matches Some(b)
            &&& b.kind is Int
            &&& fresh(s, t, b.reg)
            &&& later(s, t)
            &&& ran(w, s, t, m, m.with_word(b.reg, v))
        }),
{
    lemma_plain(s, e);
    lemma_ran_none(w, s, s, m);
    lemma_result(
        w,
        s,
        s,
        OpKind::LoadConstI,
        seq![],
        BindingKind::Int,
        Op::LoadConst(s.next_reg, v),
        m,
        m,
    );
}

/// A name stands for the register that it is bound to, without any code.
pub proof fn law_name_stands_for_its_register<'a>(s: LowerState<'a>, e: &'a Expr, p: ExprPath)
    requires
        e.kind == ExprKind::Path(p),
    ensures
        value(s, e).0 == s,
        value(s, e).1 == match path_ident(p.path) {
            Some(name) => if s.bindings.contains_key(name@) {
                Some(s.bindings[name@])
            } else {
                None
            },
            None => None,
        },
{
    lemma_plain(s, e);
}

/// Parentheses, and casts of integers to integers, change nothing.
pub proof fn law_parentheses_and_casts_keep_the_value<'a>(s: LowerState<'a>, e: &'a Expr)
    ensures
        e.kind matches ExprKind::Paren(x) ==> value(s, e) == value(s, &*x),
        e.kind matches ExprKind::Cast(c) ==> is_int_type(c.ty) ==> {
            let (t, r) = value(s, &*c.expr);
            value(s, e) == (
                t,
                if r is Some && r->0.kind is Int {
                    r
                } else {
                    None
                },
            )
        },
{
    match e.kind {
        ExprKind::Paren(_) => lemma_plain(s, e),
        ExprKind::Cast(_) => lemma_plain(s, e),
        _ => {},
    }
}

/// The code of `-x` computes `x` and puts its negation into a fresh register.
pub proof fn law_negation_negates<'a>(
    w: World<'a>,
    s: LowerState<'a>,
    e: &'a Expr,
    u: ExprUnary,
    m: Machine<'a>,
    n: Machine<'a>,
)
    requires
        e.kind == ExprKind::Unary(u),
        u.op is Neg,
        value(s, &*u.expr).1 is Some,
        value(s, &*u.expr).1->0.kind is Int,
        value(s, e).0.rejected is None,
        ran(w, s, value(s, &*u.expr).0, m, n),
    ensures
        ({
            let (s1, x) = value(s, &*u.expr);
            let (t, r) = value(s, e);
            let v = held(n, x->0);
            &&& r is Some
            &&& r->0.kind is Int
            &&& fresh(s1, t, r->0.reg)
            &&& exists|neg: i64| #[trigger]
                ran(w, s, t, m, n.with_word(r->0.reg, neg)) && (v != i64::MIN ==> neg == -v)
        }),
{
    lemma_plain(s, e);
    let (s1, x) = value(s, &*u.expr);
    let b = x->0;
    lemma_result(
        w,
        s,
        s1,
        OpKind::UnaryI,
        seq![int_slot(b.reg)],
        BindingKind::Int,
        Op::IntNeg(s1.next_reg, b.reg),
        m,
        n,
    );
    let neg: i64 = (-n.word(b.reg)) as i64;
    let (t, r) = value(s, e);
    assert(r->0.reg == s1.next_reg);
    assert(ran(w, s, t, m, n.with_word(r->0.reg, neg)));
}

/// The code of `l op r` computes `l`, then `r`, and puts `op` applied to the two
/// values, in that order, into a fresh register. Nothing else changes.
pub proof fn law_binary_applies_its_operator<'a>(
    w: World<'a>,
    s: LowerState<'a>,
    e: &'a Expr,
    b: ExprBinary,
    m: Machine<'a>,
    x: Machine<'a>,
    n: Machine<'a>,
)
    requires
        e.kind == ExprKind::Binary(b),
        is_word_operator(b.op),
        value(s, &*b.left).1 is Some,
        value(s, &*b.left).1->0.kind is Int,
        value(value(s, &*b.left).0, &*b.right).1 is Some,
        value(value(s, &*b.left).0, &*b.right).1->0.kind is Int,
        value(s, e).0.rejected is None,
        ran(w, s, value(s, &*b.left).0, m, x),
        ran(w, value(s, &*b.left).0, value(value(s, &*b.left).0, &*b.right).0, x, n),
        held(n, value(s, &*b.left).1->0) == held(x, value(s, &*b.left).1->0),
    ensures
        ({
            let (s1, l) = value(s, &*b.left);
            let (s2, r) = value(s1, &*b.right);
            let (t, out) = value(s, e);
            &&& out is Some
            &&& out->0.kind is Int
            &&& fresh(s2, t, out->0.reg)
            &&& exists|v: i64| #[trigger]
                ran(w, s, t, m, n.with_word(out->0.reg, v)) && (meaning(
                    b.op,
                    held(x, l->0),
                    held(n, r->0),
                ) matches Some(i) ==> v == i)
        }),
{
    lemma_plain(s, e);
    let (s1, l) = value(s, &*b.left);
    let (s2, r) = value(s1, &*b.right);
    law_operation_computes_the_operator(b.op, held(x, l->0), held(n, r->0));
    let opcode = binop_opcode(b.op)->0;
    lemma_ran_both(w, s, s1, s2, m, x, n);
    lemma_result(
        w,
        s,
        s2,
        OpKind::BinopI,
        seq![int_slot(l->0.reg), int_slot(r->0.reg)],
        BindingKind::Int,
        Op::Binop(s2.next_reg, opcode, l->0.reg, r->0.reg),
        m,
        n,
    );
    let v = apply(opcode, held(x, l->0), held(n, r->0));
    let (t, out) = value(s, e);
    assert(out->0.reg == s2.next_reg);
    assert(ran(w, s, t, m, n.with_word(out->0.reg, v)));
}

/// `if c { 1 } else { 0 }` has the value of `c`, and `if c { 0 } else { 1 }` is 1
/// where `c` is 0 and 0 elsewhere.
pub proof fn law_boolean_if_has_the_value_of_its_condition<'a>(
    w: World<'a>,
    s: LowerState<'a>,
    e: &'a Expr,
    i: ExprIf,
    m: Machine<'a>,
    n: Machine<'a>,
)
    requires
        e.kind == ExprKind::If(i),
        bool_branches(i) == Some((1i64, 0i64)) || bool_branches(i) == Some((0i64, 1i64)),
        lowered(bool_if(s, e)),
        ran(w, s, value(s, &*i.cond).0, m, n),
        value(s, &*i.cond).1->0.reg < value(s, &*i.cond).0.next_reg,
    ensures
        value(s, e) == bool_if(s, e),
        ({
            let (s1, c) = value(s, &*i.cond);
            let (t, r) = value(s, e);
            let v = held(n, c->0);
            &&& c is Some && c->0.kind is Int && r->0.kind is Int
            &&& bool_branches(i) == Some((1i64, 0i64)) ==> t == s1 && r == c
            &&& bool_branches(i) == Some((0i64, 1i64)) ==> {
                &&& fresh(s1, t, r->0.reg)
                &&& exists|end: Machine<'a>| #[trigger]
                    ran(w, s, t, m, end) && held(end, r->0) == (if v == 0 {
                        1int
                    } else {
                        0
                    }) && held(end, c->0) == v
            }
        }),
{
    lemma_plain(s, e);
    let (s1, c) = value(s, &*i.cond);
    let (t, r) = bool_if(s, e);
    if bool_branches(i) == Some((0i64, 1i64)) {
        let zero = s1.next_reg;
        let u = s1.reg_taken();
        let s2 = u.emit_op(
            OpKind::LoadConstI,
            seq![],
            seq![int_slot(zero)],
            Op::LoadConst(zero, 0),
        );
        let reg = s2.next_reg;
        lemma_emitted_op(
            s2.reg_taken(),
            OpKind::BinopI,
            seq![int_slot(c->0.reg), int_slot(zero)],
            seq![int_slot(reg)],
            Op::Binop(reg, IntOpcode::IntEq, c->0.reg, zero),
        );
        lemma_taken(s2);
        lemma_result(
            w,
            s,
            s1,
            OpKind::LoadConstI,
            seq![],
            BindingKind::Int,
            Op::LoadConst(zero, 0),
            m,
            n,
        );
        let x = n.with_word(zero, 0);
        lemma_result(
            w,
            s,
            s2,
            OpKind::BinopI,
            seq![int_slot(c->0.reg), int_slot(zero)],
            BindingKind::Int,
            Op::Binop(reg, IntOpcode::IntEq, c->0.reg, zero),
            m,
            x,
        );
        let end = x.with_word(reg, apply(IntOpcode::IntEq, x.word(c->0.reg), x.word(zero)));
        assert(ran(w, s, t, m, end));
    }
}

// ── Places ───────────────────────────────────────────────────────────

/// The code of `state.field` puts what the field holds into a fresh register and
/// changes nothing else.
pub proof fn law_field_read_gives_the_field<'a>(
    w: World<'a>,
    s: LowerState<'a>,
    e: &'a Expr,
    name: Seq<char>,
    field: u16,
    m: Machine<'a>,
)
    requires
        state_field(*e) == Some(name),
        scalar_index(s.ctx.config, name) == Some(field),
        value(s, e).0.rejected is None,
    ensures
        ({
            let (t, r) = value(s, e);
            &&& r matches Some(b)
            &&& b.kind is Int
            &&& fresh(s, t, b.reg)
            &&& later(s, t)
            &&& ran(w, s, t, m, m.with_word(b.reg, (m.fields)(field)))
        }),
{
    reveal(state_field_read);
    lemma_ran_none(w, s, s, m);
    lemma_result(
        w,
        s,
        s,
        OpKind::StateField,
        seq![],
        BindingKind::Int,
        Op::LoadStateField(field, s.next_reg),
        m,
        m,
    );
}

/// The code of `state.array[i]` computes `i` and puts the element of that array at
/// the value of `i` into a fresh register.
pub proof fn law_array_read_gives_the_element<'a>(
    w: World<'a>,
    s: LowerState<'a>,
    e: &'a Expr,
    x: ExprIndex,
    name: Seq<char>,
    virt: bool,
    array: u16,
    m: Machine<'a>,
    n: Machine<'a>,
)
    requires
        e.kind == ExprKind::Index(x),
        state_field(*x.expr) == Some(name),
        array_index(s.ctx.config, name) == Some((virt, array)),
        value(s, e).0.rejected is None,
        value(s, &*x.index).1 is Some,
        value(s, &*x.index).1->0.kind is Int,
        ran(w, s, value(s, &*x.index).0, m, n),
    ensures
        ({
            let (s1, idx) = value(s, &*x.index);
            let (t, r) = value(s, e);
            &&& r matches Some(b)
            &&& b.kind is Int
            &&& fresh(s1, t, b.reg)
            &&& ran(
                w,
                s,
                t,
                m,
                n.with_word(b.reg, (n.arrays)(virt, array, held(n, idx->0))),
            )
        }),
{
    reveal(state_field_read);
    let (s1, idx) = value(s, &*x.index);
    grows_value(s, &*x.index);
    assert(s1.ctx == s.ctx) by {
        reveal(crate::growth::grows);
    }
    lemma_taken(s1);
    assert(value(s, e) == state_array_read(s, e));
    lemma_result(
        w,
        s,
        s1,
        OpKind::StateField,
        seq![int_slot(idx->0.reg)],
        BindingKind::Int,
        if virt {
            Op::LoadStateVarray(array, idx->0.reg, s1.next_reg)
        } else {
            Op::LoadStateArray(array, idx->0.reg, s1.next_reg)
        },
        m,
        n,
    );
}

/// Whether an expression is no scalar field of the state.
pub open spec fn no_state_scalar<'a>(s: LowerState<'a>, e: Expr) -> bool {
    match state_field(e) {
        Some(name) => scalar_index(s.ctx.config, name) is None,
        None => true,
    }
}

/// The code of `v.field`, where `v` is the virtualizable, puts what the field holds
/// into a fresh register of the field's bank and changes nothing else.
pub proof fn law_vable_field_read_gives_the_field<'a>(
    w: World<'a>,
    s: LowerState<'a>,
    e: &'a Expr,
    name: Seq<char>,
    base: u16,
    m: Machine<'a>,
)
    requires
        no_state_scalar(s, *e),
        vable_field(s.ctx.config, *e) == Some(name),
        vable_field_index(s.ctx.config, name) is Some,
        vable_base(s) == Some(base),
        value(s, e).0.rejected is None,
    ensures
        ({
            let (field, ty) = vable_field_index(s.ctx.config, name)->0;
            let (t, r) = value(s, e);
            let v = (m.regs)(BindingKind::Ref, base);
            &&& r matches Some(b)
            &&& b.kind == ty.bank()
            &&& fresh(s, t, b.reg)
            &&& later(s, t)
            &&& ran(w, s, t, m, m.with_reg(b.kind, b.reg, (m.vable_fields)(v, field)))
        }),
{
    reveal(state_field_read);
    reveal(vable_field_read);
    let (field, ty) = vable_field_index(s.ctx.config, name)->0;
    lemma_ran_none(w, s, s, m);
    lemma_result(
        w,
        s,
        s,
        OpKind::Vable,
        seq![ref_slot(base)],
        ty.bank(),
        Op::VableGetfield(ty, s.next_reg, base, field),
        m,
        m,
    );
}

/// The code of `v.array[i]`, where `v` is the virtualizable, computes `i` and puts
/// the item of that array at the value of `i` into a fresh register of the items'
/// bank.
pub proof fn law_vable_array_read_gives_the_item<'a>(
    w: World<'a>,
    s: LowerState<'a>,
    e: &'a Expr,
    x: ExprIndex,
    name: Seq<char>,
    base: u16,
    m: Machine<'a>,
    n: Machine<'a>,
)
    requires
        e.kind == ExprKind::Index(x),
        state_field(*x.expr) is None,
        vable_field(s.ctx.config, *x.expr) == Some(name),
        vable_array_index(s.ctx.config, name) is Some,
        vable_base(s) == Some(base),
        value(s, e).0.rejected is None,
        value(s, &*x.index).1 is Some,
        value(s, &*x.index).1->0.kind is Int,
        ran(w, s, value(s, &*x.index).0, m, n),
    ensures
        ({
            let (array, ty) = vable_array_index(s.ctx.config, name)->0;
            let (s1, idx) = value(s, &*x.index);
            let (t, r) = value(s, e);
            let v = (n.regs)(BindingKind::Ref, base);
            &&& r matches Some(b)
            &&& b.kind == ty.bank()
            &&& fresh(s1, t, b.reg)
            &&& ran(
                w,
                s,
                t,
                m,
                n.with_reg(b.kind, b.reg, (n.vable_items)(v, array, held(n, idx->0))),
            )
        }),
{
    reveal(state_field_read);
    reveal(vable_field_read);
    let (array, ty) = vable_array_index(s.ctx.config, name)->0;
    let (s1, idx) = value(s, &*x.index);
    assert(value(s, e) == vable_array_read(s, e));
    lemma_result(
        w,
        s,
        s1,
        OpKind::Vable,
        seq![ref_slot(base), int_slot(idx->0.reg)],
        ty.bank(),
        Op::VableGetarrayitem(ty, s1.next_reg, base, array, idx->0.reg),
        m,
        n,
    );
}

/// The code of `v.array.len()`, where `v` is the virtualizable, puts the length of
/// that array into a fresh register and changes nothing else.
pub proof fn law_vable_length_gives_the_length<'a>(
    w: World<'a>,
    s: LowerState<'a>,
    e: &'a Expr,
    c: ExprMethodCall,
    name: Seq<char>,
    base: u16,
    m: Machine<'a>,
)
    requires
        e.kind == ExprKind::MethodCall(c),
        c.method@ == "len"@,
        c.args@.len() == 0,
        vable_field(s.ctx.config, *c.receiver) == Some(name),
        vable_array_index(s.ctx.config, name) is Some,
        vable_base(s) == Some(base),
        value(s, e).0.rejected is None,
    ensures
        ({
            let (array, _) = vable_array_index(s.ctx.config, name)->0;
            let (t, r) = value(s, e);
            let v = (m.regs)(BindingKind::Ref, base);
            &&& r matches Some(b)
            &&& b.kind is Int
            &&& fresh(s, t, b.reg)
            &&& later(s, t)
            &&& ran(w, s, t, m, m.with_word(b.reg, (w.lengths)(v, array)))
        }),
{
    reveal(state_field_read);
    reveal(vable_field_read);
    reveal(vable_array_len);
    let (array, _) = vable_array_index(s.ctx.config, name)->0;
    lemma_ran_none(w, s, s, m);
    lemma_result(
        w,
        s,
        s,
        OpKind::Vable,
        seq![ref_slot(base)],
        BindingKind::Int,
        Op::VableArraylen(s.next_reg, base, array),
        m,
        m,
    );
}

// ── Hints ────────────────────────────────────────────────────────────

pub proof fn lemma_call_form<'a>(s: LowerState<'a>, e: &'a Expr, c: ExprCall)
    requires
        e.kind == ExprKind::Call(c),
    ensures
        ({
            let (s1, r1) = hint_identity(s, e);
            value(s, e) == if r1 is Some {
                (s1, r1)
            } else {
                plain_value(s1, e)
            }
        }),
{
    reveal(state_field_read);
    reveal(vable_field_read);
    reveal(vable_array_len);
    reveal(macro_list);
}

/// A hint that is the identity has the value of its argument, by the same code.
pub proof fn law_identity_hint_is_its_argument<'a>(s: LowerState<'a>, e: &'a Expr, c: ExprCall)
    requires
        e.kind == ExprKind::Call(c),
        c.args@.len() > 0,
        value(s, &c.args[0]).1 is Some,
        c.func.kind matches ExprKind::Path(p) && (hint_of_segments(segment_names(p.path)) == Some(
            VirtualizableHintKind::AccessDirectly,
        ) || hint_of_segments(segment_names(p.path)) == Some(
            VirtualizableHintKind::FreshVirtualizable,
        )),
    ensures
        value(s, e) == value(s, &c.args[0]),
{
    lemma_call_form(s, e, c);
}

/// The code of a live marker and a guard pins the register's value and changes
/// nothing else.
pub proof fn lemma_guard_value<'a>(
    w: World<'a>,
    s: LowerState<'a>,
    t: LowerState<'a>,
    b: Binding,
    m: Machine<'a>,
    n: Machine<'a>,
)
    requires
        ran(w, s, t, m, n),
        guard_value(t, b).rejected is None,
    ensures
        ran(w, s, guard_value(t, b), m, n.does(Event::Pinned(b.kind, held(n, b)))),
        later(t, guard_value(t, b)),
        guard_value(t, b).next_reg == t.next_reg,
{
    reveal(guard_value);
    let reads = seq![Slot { kind: b.kind, reg: b.reg }];
    let op = Op::GuardValue(b.kind, b.reg);
    lemma_emitted_op(t.live(), OpKind::GuardValue, reads, seq![], op);
    lemma_live(t);
    lemma_ran_one(w, s, t, t.live(), Instr::Op(Op::LivePlaceholder), m, n);
    lemma_ran_op(w, s, t.live(), OpKind::GuardValue, reads, seq![], op, m, n);
}

/// `promote(x)` computes `x`, pins its value, and has that value.
pub proof fn law_promotion_pins_its_value<'a>(
    w: World<'a>,
    s: LowerState<'a>,
    e: &'a Expr,
    c: ExprCall,
    m: Machine<'a>,
    n: Machine<'a>,
)
    requires
        e.kind == ExprKind::Call(c),
        is_promote(*c.func),
        c.args@.len() == 1,
        value(s, &c.args[0]).1 is Some,
        value(s, e).0.rejected is None,
        ran(w, s, value(s, &c.args[0]).0, m, n),
    ensures
        ({
            let (s1, x) = value(s, &c.args[0]);
            let (t, r) = value(s, e);
            &&& r == x
            &&& later(s1, t)
            &&& t.next_reg == s1.next_reg
            &&& ran(w, s, t, m, n.does(Event::Pinned(x->0.kind, held(n, x->0))))
        }),
{
    lemma_call_form(s, e, c);
    assert(hint_identity(s, e) == (s, None::<Binding>)) by {
        match c.func.kind {
            ExprKind::Path(p) => {
                reveal_strlit("promote");
                reveal_strlit("hint_promote");
                reveal_strlit("hint_access_directly");
                reveal_strlit("hint_fresh_virtualizable");
                let names = segment_names(p.path);
                assert(names.last() == "promote"@ || names.last() == "hint_promote"@);
                assert(names.last().len() == 7 || names.last().len() == 12);
            },
            _ => {},
        }
    }
    let (s1, x) = value(s, &c.args[0]);
    lemma_guard_value(w, s, s1, x->0, m, n);
}

/// A call that is no hint and no promotion is a call of its callee.
pub proof fn law_other_calls_call_their_callee<'a>(s: LowerState<'a>, e: &'a Expr, c: ExprCall)
    requires
        e.kind == ExprKind::Call(c),
        !is_promote(*c.func),
        c.func.kind matches ExprKind::Path(p) ==> hint_of_segments(segment_names(p.path)) is None,
    ensures
        value(s, e) == call_value(s, e),
{
    lemma_call_form(s, e, c);
}

/// A method call that is no length of an array of the virtualizable is a call of the
/// method.
pub proof fn law_method_calls_call_their_method<'a>(
    s: LowerState<'a>,
    e: &'a Expr,
    c: ExprMethodCall,
)
    requires
        e.kind == ExprKind::MethodCall(c),
        vable_field(s.ctx.config, *c.receiver) is None,
    ensures
        value(s, e) == method_value(s, e),
{
    reveal(state_field_read);
    reveal(vable_field_read);
    reveal(vable_array_len);
    reveal(macro_list);
}

} // verus!
