//! What the code of a store changes, and what a load behind it reads.

use vstd::prelude::*;

use crate::ast::{Expr, ExprAssign, ExprBinary, ExprIndex, ExprKind, ExprMacro};
use crate::code_runs::{
    held, later, lemma_emitted_op, lemma_not_rejected, lemma_ran_both, lemma_ran_op, lemma_ran_same,
    lemma_taken, ran,
};
use crate::growth::grows;
use crate::growth_forms::grows_value;
use crate::kinds::ValueKind;
use crate::lower_spec::{
    array_index, element_value, expr_stmt, expr_stmt_vable, index_assign, is_force_hint,
    is_promotion, promote_stmt, promoted_name, scalar_index, state_array_name, state_array_write,
    state_field, state_field_read, state_field_update, state_field_write, store_element,
    store_updated, update_target, vable_array_target, vable_array_write, vable_field,
    vable_field_index, vable_field_write, vable_force, vable_store, vable_value, value,
};
use crate::lowerer::{int_slot, LowerState, ref_slot, Slot, vable_base};
use crate::machine::{apply, Machine, meaning, World};
use crate::ops::{Op, OpKind};
use crate::patterns::assign_opcode;
use crate::value_laws::{
    assigned_operator, law_array_read_gives_the_element, law_assignment_uses_its_operator,
    law_field_read_gives_the_field, law_operation_computes_the_operator,
};

verus! {

/// `state.field op= x` reads the field, computes `x`, and puts `op` applied to the two
/// values, in that order, into the field. No other field changes, and no array.
pub proof fn law_field_update_applies_its_operator<'a>(
    w: World<'a>,
    s: LowerState<'a>,
    e: &'a Expr,
    b: ExprBinary,
    name: Seq<char>,
    field: u16,
    m: Machine<'a>,
    n: Machine<'a>,
)
    requires
        e.kind == ExprKind::Binary(b),
        state_field(*b.left) == Some(name),
        scalar_index(s.ctx.config, name) == Some(field),
        assigned_operator(b.op) is Some,
        value(value(s, &*b.left).0, &*b.right).1 is Some,
        value(value(s, &*b.left).0, &*b.right).1->0.kind is Int,
        expr_stmt(s, e).0.rejected is None,
        ran(
            w,
            value(s, &*b.left).0,
            value(value(s, &*b.left).0, &*b.right).0,
            m.with_word(value(s, &*b.left).1->0.reg, (m.fields)(field)),
            n,
        ),
        n.word(value(s, &*b.left).1->0.reg) == (m.fields)(field),
    ensures
        ({
            let (s1, _) = value(s, &*b.left);
            let (_, r) = value(s1, &*b.right);
            let (t, done) = expr_stmt(s, e);
            &&& done
            &&& exists|end: Machine<'a>, v: i64|
                #![trigger ran(w, s, t, m, end), n.with_field(field, v)]
                {
                    &&& ran(w, s, t, m, end)
                    &&& meaning(
                        assigned_operator(b.op)->0,
                        (m.fields)(field),
                        held(n, r->0),
                    ) matches Some(i) ==> v == i
                    &&& end.fields == n.with_field(field, v).fields
                    &&& end.arrays == n.arrays
                    &&& end.vable_fields == n.vable_fields
                    &&& end.vable_items == n.vable_items
                    &&& end.events == n.events
                }
        }),
{
    reveal(promoted_name);
    reveal(is_promotion);
    reveal(update_target);
    reveal(store_updated);
    reveal(state_field_read);
    law_assignment_uses_its_operator(b.op);
    let plain = assigned_operator(b.op)->0;
    let (s1, l) = value(s, &*b.left);
    assert(value(s, &*b.left) == state_field_read(s, *b.left));
    let (s2, r) = value(s1, &*b.right);
    let opcode = assign_opcode(b.op)->0;
    law_operation_computes_the_operator(plain, (m.fields)(field), held(n, r->0));
    let t = store_updated(s2, field, opcode, l->0.reg, r->0.reg);
    assert(expr_stmt(s, e) == (t, true));
    let dst = s2.next_reg;
    let reads = seq![int_slot(l->0.reg), int_slot(r->0.reg)];
    let writes = seq![int_slot(dst)];
    let op = Op::Binop(dst, opcode, l->0.reg, r->0.reg);
    let u = s2.reg_taken().emit_op(OpKind::BinopI, reads, writes, op);
    lemma_emitted_op(
        u,
        OpKind::StateField,
        seq![int_slot(dst)],
        seq![],
        Op::StoreStateField(field, dst),
    );
    lemma_emitted_op(s2.reg_taken(), OpKind::BinopI, reads, writes, op);
    lemma_taken(s2);
    grows_value(s1, &*b.right);
    lemma_not_rejected(s1, s2);
    law_field_read_gives_the_field(w, s, &*b.left, name, field, m);
    let x = m.with_word(l->0.reg, (m.fields)(field));
    lemma_ran_both(w, s, s1, s2, m, x, n);
    lemma_ran_same(w, s, s2, s, s2.reg_taken(), m, n);
    lemma_ran_op(w, s, s2.reg_taken(), OpKind::BinopI, reads, writes, op, m, n);
    let v = apply(opcode, (m.fields)(field), held(n, r->0));
    let y = n.with_word(dst, v);
    lemma_ran_op(
        w,
        s,
        u,
        OpKind::StateField,
        seq![int_slot(dst)],
        seq![],
        Op::StoreStateField(field, dst),
        m,
        y,
    );
    let end = y.with_field(field, v);
    assert(ran(w, s, t, m, end));
    assert(end.fields =~= n.with_field(field, v).fields);
}

// ── Forms ────────────────────────────────────────────────────────────

/// An assignment to an element is no promotion and no write of a field.
proof fn lemma_element_form<'a>(s: LowerState<'a>, e: &'a Expr, a: ExprAssign, x: ExprIndex)
    requires
        e.kind == ExprKind::Assign(a),
        a.left.kind == ExprKind::Index(x),
    ensures
        promote_stmt(s, e) == (s, false),
        state_field_update(s, e) == (s, false),
        state_field_write(s, e) == (s, false),
        vable_field_write(s, e) == (s, false),
        index_assign(*e) == Some((*x.expr, *x.index, *a.right)),
{
    reveal(promoted_name);
    reveal(is_promotion);
    reveal(update_target);
    reveal(index_assign);
}

proof fn lemma_to_array_write<'a>(s: LowerState<'a>, e: &'a Expr)
    requires
        promote_stmt(s, e) == (s, false),
        state_field_update(s, e) == (s, false),
        state_field_write(s, e) == (s, false),
    ensures
        ({
            let (s1, r1) = state_array_write(s, e);
            expr_stmt(s, e) == if r1 {
                (s1, r1)
            } else {
                expr_stmt_vable(s1, e)
            }
        }),
{
}

proof fn lemma_state_array_form<'a>(
    s: LowerState<'a>,
    e: &'a Expr,
    array: Expr,
    index: Expr,
    right: Expr,
    name: Seq<char>,
)
    requires
        index_assign(*e) == Some((array, index, right)),
        state_field(array) == Some(name),
        s.ctx.config is Some,
        value(s, &index).1 is Some,
        value(value(s, &index).0, &right).1 is Some,
    ensures
        ({
            let (s1, idx) = value(s, &index);
            let (s2, v) = value(s1, &right);
            state_array_write(s, e) == store_element(s2, name, idx->0.reg, v->0.reg)
        }),
{
    reveal(state_array_name);
    let (s1, idx) = value(s, &index);
    assert(state_array_write(s, e) == element_value(s1, &right, name, idx->0.reg));
}

pub proof fn lemma_vable_array_form<'a>(
    s: LowerState<'a>,
    e: &'a Expr,
    array: Expr,
    index: Expr,
    right: Expr,
    number: u16,
    ty: ValueKind,
    base: u16,
)
    requires
        index_assign(*e) == Some((array, index, right)),
        state_field(array) is None,
        vable_array_target(s, array) == Some((number, ty, base)),
        value(s, &index).1 is Some,
        value(value(s, &index).0, &right).1 is Some,
    ensures
        state_array_write(s, e) == (s, false),
        ({
            let (s1, idx) = value(s, &index);
            let (s2, v) = value(s1, &right);
            vable_array_write(s, e) == (
                vable_store(s2, number, ty, base, idx->0.reg, v->0.reg),
                true,
            )
        }),
{
    reveal(state_array_name);
    let (s1, idx) = value(s, &index);
    assert(vable_array_write(s, e) == vable_value(s1, &right, number, ty, base, idx->0.reg));
}

pub proof fn lemma_vable_field_form<'a>(
    s: LowerState<'a>,
    e: &'a Expr,
    a: ExprAssign,
    name: Seq<char>,
    field: u16,
    ty: ValueKind,
    base: u16,
)
    requires
        e.kind == ExprKind::Assign(a),
        vable_field(s.ctx.config, *a.left) == Some(name),
        vable_field_index(s.ctx.config, name) == Some((field, ty)),
        vable_base(s) == Some(base),
        value(s, &*a.right).1 is Some,
    ensures
        ({
            let (s1, b) = value(s, &*a.right);
            vable_field_write(s, e) == (
                s1.emit_op(
                    OpKind::Vable,
                    seq![ref_slot(base), Slot { kind: ty.bank(), reg: b->0.reg }],
                    seq![],
                    Op::VableSetfield(ty, base, field, b->0.reg),
                ),
                true,
            )
        }),
{
}

pub proof fn lemma_vable_force_form<'a>(s: LowerState<'a>, e: &'a Expr, h: ExprMacro)
    requires
        e.kind == ExprKind::Macro(h),
        h.single is Some,
        is_force_hint(s.ctx.config, *e),
        value(s, &*h.single->0).1 is Some,
    ensures
        ({
            let (s1, b) = value(s, &*h.single->0);
            vable_force(s, e) == (
                s1.emit_op(
                    OpKind::Vable,
                    seq![ref_slot(b->0.reg)],
                    seq![],
                    Op::VableForce(b->0.reg),
                ),
                true,
            )
        }),
{
}

/// `state.array[i] = x` computes `i`, then `x`, and the element of that array at the
/// value of `i` becomes the value of `x`. Nothing else changes.
pub proof fn law_array_write_sets_the_element<'a>(
    w: World<'a>,
    s: LowerState<'a>,
    e: &'a Expr,
    a: ExprAssign,
    x: ExprIndex,
    name: Seq<char>,
    virt: bool,
    array: u16,
    m: Machine<'a>,
    p: Machine<'a>,
    n: Machine<'a>,
)
    requires
        e.kind == ExprKind::Assign(a),
        a.left.kind == ExprKind::Index(x),
        state_field(*x.expr) == Some(name),
        array_index(s.ctx.config, name) == Some((virt, array)),
        value(s, &*x.index).1 is Some,
        value(s, &*x.index).1->0.kind is Int,
        value(value(s, &*x.index).0, &*a.right).1 is Some,
        value(value(s, &*x.index).0, &*a.right).1->0.kind is Int,
        expr_stmt(s, e).0.rejected is None,
        ran(w, s, value(s, &*x.index).0, m, p),
        ran(w, value(s, &*x.index).0, value(value(s, &*x.index).0, &*a.right).0, p, n),
        held(n, value(s, &*x.index).1->0) == held(p, value(s, &*x.index).1->0),
    ensures
        ({
            let (s1, idx) = value(s, &*x.index);
            let (s2, v) = value(s1, &*a.right);
            let (t, done) = expr_stmt(s, e);
            &&& done
            &&& later(s2, t)
            &&& ran(w, s, t, m, n.with_item(virt, array, held(p, idx->0), held(n, v->0)))
        }),
{
    lemma_element_form(s, e, a, x);
    lemma_to_array_write(s, e);
    lemma_state_array_form(s, e, *x.expr, *x.index, *a.right, name);
    let (s1, idx) = value(s, &*x.index);
    let (s2, v) = value(s1, &*a.right);
    grows_value(s, &*x.index);
    grows_value(s1, &*a.right);
    assert(s2.ctx == s.ctx) by {
        reveal(grows);
    }
    let t = expr_stmt(s, e).0;
    let (u, done) = store_element(s2, name, idx->0.reg, v->0.reg);
    lemma_store_kept(s2, e, name, idx->0.reg, v->0.reg, t);
    lemma_ran_both(w, s, s1, s2, m, p, n);
    lemma_store_runs(w, s, s2, name, virt, array, idx->0.reg, v->0.reg, m, n);
}

/// The code of a store.
proof fn lemma_store_runs<'a>(
    w: World<'a>,
    s: LowerState<'a>,
    s2: LowerState<'a>,
    name: Seq<char>,
    virt: bool,
    array: u16,
    idx: u16,
    v: u16,
    m: Machine<'a>,
    n: Machine<'a>,
)
    requires
        array_index(s2.ctx.config, name) == Some((virt, array)),
        store_element(s2, name, idx, v).1,
        store_element(s2, name, idx, v).0.rejected is None,
        ran(w, s, s2, m, n),
    ensures
        later(s2, store_element(s2, name, idx, v).0),
        ran(
            w,
            s,
            store_element(s2, name, idx, v).0,
            m,
            n.with_item(virt, array, n.word(idx), n.word(v)),
        ),
{
    reveal(store_element);
    lemma_ran_op(
        w,
        s,
        s2,
        OpKind::StateField,
        seq![int_slot(idx), int_slot(v)],
        seq![],
        if virt {
            Op::StoreStateVarray(array, idx, v)
        } else {
            Op::StoreStateArray(array, idx, v)
        },
        m,
        n,
    );
}

/// A store that is rejected does not become another one.
proof fn lemma_store_kept<'a>(
    s: LowerState<'a>,
    e: &'a Expr,
    name: Seq<char>,
    idx: u16,
    v: u16,
    t: LowerState<'a>,
)
    requires
        array_index(s.ctx.config, name) is Some,
        t.rejected is None,
        t == {
            let (s1, r1) = store_element(s, name, idx, v);
            if r1 {
                s1
            } else {
                expr_stmt_vable(s1, e).0
            }
        },
    ensures
        store_element(s, name, idx, v) == (t, true),
{
    if !store_element(s, name, idx, v).1 {
        let s3 = store_element(s, name, idx, v).0;
        assert(s3.rejected is Some) by {
            reveal(store_element);
            reveal(LowerState::reject);
        }
        crate::growth_forms::grows_expr_stmt_vable(s3, e);
        lemma_not_rejected(s3, expr_stmt_vable(s3, e).0);
    }
}

/// A read of `state.array[j]` behind `state.array[i] = x` gives the value of `x`
/// where `j` has the value of `i`, and what stood there before elsewhere.
pub proof fn law_array_read_behind_a_write_gives_what_was_written<'a>(
    w: World<'a>,
    s: LowerState<'a>,
    write: &'a Expr,
    a: ExprAssign,
    x: ExprIndex,
    read: &'a Expr,
    y: ExprIndex,
    name: Seq<char>,
    virt: bool,
    array: u16,
    m: Machine<'a>,
    p: Machine<'a>,
    n: Machine<'a>,
    q: Machine<'a>,
)
    requires
        write.kind == ExprKind::Assign(a),
        a.left.kind == ExprKind::Index(x),
        read.kind == ExprKind::Index(y),
        state_field(*x.expr) == Some(name),
        state_field(*y.expr) == Some(name),
        array_index(s.ctx.config, name) == Some((virt, array)),
        value(s, &*x.index).1 is Some,
        value(s, &*x.index).1->0.kind is Int,
        value(value(s, &*x.index).0, &*a.right).1 is Some,
        value(value(s, &*x.index).0, &*a.right).1->0.kind is Int,
        ran(w, s, value(s, &*x.index).0, m, p),
        ran(w, value(s, &*x.index).0, value(value(s, &*x.index).0, &*a.right).0, p, n),
        held(n, value(s, &*x.index).1->0) == held(p, value(s, &*x.index).1->0),
        value(expr_stmt(s, write).0, &*y.index).1 is Some,
        value(expr_stmt(s, write).0, &*y.index).1->0.kind is Int,
        value(expr_stmt(s, write).0, read).0.rejected is None,
        ran(
            w,
            expr_stmt(s, write).0,
            value(expr_stmt(s, write).0, &*y.index).0,
            n.with_item(
                virt,
                array,
                held(p, value(s, &*x.index).1->0),
                held(n, value(value(s, &*x.index).0, &*a.right).1->0),
            ),
            q,
        ),
        q.arrays == n.with_item(
            virt,
            array,
            held(p, value(s, &*x.index).1->0),
            held(n, value(value(s, &*x.index).0, &*a.right).1->0),
        ).arrays,
    ensures
        ({
            let (s1, i) = value(s, &*x.index);
            let v = value(s1, &*a.right).1;
            let t = expr_stmt(s, write).0;
            let j = value(t, &*y.index).1;
            let (u, r) = value(t, read);
            r is Some && exists|end: Machine<'a>| #[trigger]
                ran(w, s, u, m, end) && held(end, r->0) == if held(q, j->0) == held(p, i->0) {
                    held(n, v->0)
                } else {
                    (n.arrays)(virt, array, held(q, j->0))
                }
        }),
{
    let t = expr_stmt(s, write).0;
    grows_value(t, read);
    lemma_not_rejected(t, value(t, read).0);
    law_array_write_sets_the_element(w, s, write, a, x, name, virt, array, m, p, n);
    let (s1, i) = value(s, &*x.index);
    let (s2, v) = value(s1, &*a.right);
    let stored = n.with_item(virt, array, held(p, i->0), held(n, v->0));
    grows_value(s, &*x.index);
    grows_value(s1, &*a.right);
    assert(t.ctx == s.ctx) by {
        reveal(grows);
    }
    law_array_read_gives_the_element(w, t, read, y, name, virt, array, stored, q);
    let (u, r) = value(t, read);
    let j = value(t, &*y.index).1;
    let end = q.with_word(r->0.reg, (q.arrays)(virt, array, held(q, j->0)));
    lemma_ran_both(w, s, t, u, m, stored, end);
}

} // verus!
