//! What stores into the virtualizable change.

use vstd::prelude::*;

use crate::ast::{Expr, ExprAssign, ExprIndex, ExprKind, ExprMacro};
use crate::code_runs::{held, later, lemma_ran_both, lemma_ran_op, ran};
use crate::kinds::{BindingKind, ValueKind};
use crate::lower_spec::{
    index_assign, is_force_hint, state_field, vable_array_index, vable_array_target,
    vable_array_write, vable_field, vable_field_index, vable_field_write, vable_force, vable_store,
    value,
};
use crate::lowerer::{int_slot, LowerState, ref_slot, Slot, vable_base};
use crate::machine::{Event, Machine, World};
use crate::ops::{Op, OpKind};
use crate::store_laws::{lemma_vable_array_form, lemma_vable_field_form, lemma_vable_force_form};

verus! {

proof fn lemma_vable_set<'a>(
    w: World<'a>,
    s: LowerState<'a>,
    s1: LowerState<'a>,
    ty: ValueKind,
    base: u16,
    field: u16,
    reg: u16,
    t: LowerState<'a>,
    m: Machine<'a>,
    n: Machine<'a>,
)
    requires
        t == s1.emit_op(
            OpKind::Vable,
            seq![ref_slot(base), Slot { kind: ty.bank(), reg }],
            seq![],
            Op::VableSetfield(ty, base, field, reg),
        ),
        t.rejected is None,
        ran(w, s, s1, m, n),
    ensures
        later(s1, t),
        ran(
            w,
            s,
            t,
            m,
            n.with_vable_field((n.regs)(BindingKind::Ref, base), field, (n.regs)(ty.bank(), reg)),
        ),
{
    lemma_ran_op(
        w,
        s,
        s1,
        OpKind::Vable,
        seq![ref_slot(base), Slot { kind: ty.bank(), reg }],
        seq![],
        Op::VableSetfield(ty, base, field, reg),
        m,
        n,
    );
}

/// `v.field = x`, where `v` is the virtualizable, computes `x` and puts its value into
/// the field of the virtualizable. Nothing else changes.
pub proof fn law_vable_field_write_sets_the_field<'a>(
    w: World<'a>,
    s: LowerState<'a>,
    e: &'a Expr,
    a: ExprAssign,
    name: Seq<char>,
    field: u16,
    ty: ValueKind,
    base: u16,
    m: Machine<'a>,
    n: Machine<'a>,
)
    requires
        e.kind == ExprKind::Assign(a),
        vable_field(s.ctx.config, *a.left) == Some(name),
        vable_field_index(s.ctx.config, name) == Some((field, ty)),
        vable_base(s) == Some(base),
        value(s, &*a.right).1 is Some,
        value(s, &*a.right).1->0.kind == ty.bank(),
        vable_field_write(s, e).0.rejected is None,
        ran(w, s, value(s, &*a.right).0, m, n),
    ensures
        vable_field_write(s, e).1,
        later(value(s, &*a.right).0, vable_field_write(s, e).0),
        ran(
            w,
            s,
            vable_field_write(s, e).0,
            m,
            n.with_vable_field(
                (n.regs)(BindingKind::Ref, base),
                field,
                held(n, value(s, &*a.right).1->0),
            ),
        ),
{
    lemma_vable_field_form(s, e, a, name, field, ty, base);
    let (s1, b) = value(s, &*a.right);
    lemma_vable_set(w, s, s1, ty, base, field, b->0.reg, vable_field_write(s, e).0, m, n);
}

/// The code of a store into an array of the virtualizable.
proof fn lemma_vable_store_runs<'a>(
    w: World<'a>,
    s: LowerState<'a>,
    s2: LowerState<'a>,
    array: u16,
    ty: ValueKind,
    base: u16,
    idx: u16,
    v: u16,
    m: Machine<'a>,
    n: Machine<'a>,
)
    requires
        vable_store(s2, array, ty, base, idx, v).rejected is None,
        ran(w, s, s2, m, n),
    ensures
        later(s2, vable_store(s2, array, ty, base, idx, v)),
        ran(
            w,
            s,
            vable_store(s2, array, ty, base, idx, v),
            m,
            n.with_vable_item(
                (n.regs)(BindingKind::Ref, base),
                array,
                n.word(idx),
                (n.regs)(ty.bank(), v),
            ),
        ),
{
    reveal(vable_store);
    lemma_ran_op(
        w,
        s,
        s2,
        OpKind::Vable,
        seq![ref_slot(base), int_slot(idx), Slot { kind: ty.bank(), reg: v }],
        seq![],
        Op::VableSetarrayitem(ty, base, array, idx, v),
        m,
        n,
    );
}

/// `v.array[i] = x`, where `v` is the virtualizable, computes `i`, then `x`, and the
/// item of that array at the value of `i` becomes the value of `x`. Nothing else
/// changes.
pub proof fn law_vable_array_write_sets_the_item<'a>(
    w: World<'a>,
    s: LowerState<'a>,
    e: &'a Expr,
    array: Expr,
    index: Expr,
    right: Expr,
    number: u16,
    ty: ValueKind,
    base: u16,
    m: Machine<'a>,
    p: Machine<'a>,
    n: Machine<'a>,
)
    requires
        index_assign(*e) == Some((array, index, right)),
        state_field(array) is None,
        vable_array_target(s, array) == Some((number, ty, base)),
        value(s, &index).1 is Some,
        value(s, &index).1->0.kind is Int,
        value(value(s, &index).0, &right).1 is Some,
        value(value(s, &index).0, &right).1->0.kind == ty.bank(),
        vable_array_write(s, e).0.rejected is None,
        ran(w, s, value(s, &index).0, m, p),
        ran(w, value(s, &index).0, value(value(s, &index).0, &right).0, p, n),
        held(n, value(s, &index).1->0) == held(p, value(s, &index).1->0),
    ensures
        vable_array_write(s, e).1,
        later(value(value(s, &index).0, &right).0, vable_array_write(s, e).0),
        ran(
            w,
            s,
            vable_array_write(s, e).0,
            m,
            n.with_vable_item(
                (n.regs)(BindingKind::Ref, base),
                number,
                held(p, value(s, &index).1->0),
                held(n, value(value(s, &index).0, &right).1->0),
            ),
        ),
{
    lemma_vable_array_form(s, e, array, index, right, number, ty, base);
    let (s1, i) = value(s, &index);
    let (s2, v) = value(s1, &right);
    lemma_ran_both(w, s, s1, s2, m, p, n);
    lemma_vable_store_runs(w, s, s2, number, ty, base, i->0.reg, v->0.reg, m, n);
}

/// Array, index and value of an assignment to an element are the parts of its source,
/// and the array is the one of that name of the virtualizable.
pub proof fn law_element_assignment_has_its_parts<'a>(
    s: LowerState<'a>,
    e: Expr,
    a: ExprAssign,
    x: ExprIndex,
    name: Seq<char>,
    number: u16,
    ty: ValueKind,
    base: u16,
)
    requires
        e.kind == ExprKind::Assign(a),
        a.left.kind == ExprKind::Index(x),
        vable_field(s.ctx.config, *x.expr) == Some(name),
        vable_array_index(s.ctx.config, name) == Some((number, ty)),
        vable_base(s) == Some(base),
    ensures
        index_assign(e) == Some((*x.expr, *x.index, *a.right)),
        vable_array_target(s, *x.expr) == Some((number, ty, base)),
{
    reveal(index_assign);
    reveal(vable_array_target);
}

proof fn lemma_forced<'a>(
    w: World<'a>,
    s: LowerState<'a>,
    s1: LowerState<'a>,
    reg: u16,
    t: LowerState<'a>,
    m: Machine<'a>,
    n: Machine<'a>,
)
    requires
        t == s1.emit_op(OpKind::Vable, seq![ref_slot(reg)], seq![], Op::VableForce(reg)),
        t.rejected is None,
        ran(w, s, s1, m, n),
    ensures
        later(s1, t),
        ran(w, s, t, m, n.does(Event::Forced((n.regs)(BindingKind::Ref, reg)))),
{
    lemma_ran_op(
        w,
        s,
        s1,
        OpKind::Vable,
        seq![ref_slot(reg)],
        seq![],
        Op::VableForce(reg),
        m,
        n,
    );
}

/// `hint_force_virtualizable!(v)` computes `v` and has it written back. Nothing else
/// changes.
pub proof fn law_force_writes_the_virtualizable_back<'a>(
    w: World<'a>,
    s: LowerState<'a>,
    e: &'a Expr,
    h: ExprMacro,
    m: Machine<'a>,
    n: Machine<'a>,
)
    requires
        e.kind == ExprKind::Macro(h),
        h.single is Some,
        is_force_hint(s.ctx.config, *e),
        value(s, &*h.single->0).1 is Some,
        value(s, &*h.single->0).1->0.kind is Ref,
        vable_force(s, e).0.rejected is None,
        ran(w, s, value(s, &*h.single->0).0, m, n),
    ensures
        vable_force(s, e).1,
        later(value(s, &*h.single->0).0, vable_force(s, e).0),
        ran(
            w,
            s,
            vable_force(s, e).0,
            m,
            n.does(Event::Forced(held(n, value(s, &*h.single->0).1->0))),
        ),
{
    lemma_vable_force_form(s, e, h);
    let (s1, b) = value(s, &*h.single->0);
    lemma_forced(w, s, s1, b->0.reg, vable_force(s, e).0, m, n);
}

} // verus!
