//! Integer expressions are computed as they are written.

use vstd::prelude::*;

use crate::ast::{Expr, ExprKind, Lit, path_ident, UnOp};
use crate::code_runs::{
    held, later, lemma_emitted_op, lemma_not_rejected, lemma_ran_none, lemma_taken, ran,
};
use crate::fetch_laws::{keeps, same_state};
use crate::growth_forms::grows_value;
use crate::kinds::BindingKind;
use crate::lower_spec::value;
use crate::lowerer::{int_slot, LowerState};
use crate::machine::{Machine, meaning, World};
use crate::ops::{Op, OpKind};
use crate::patterns::{binop_opcode, is_int_type};
use crate::value_laws::{
    is_word_operator, law_binary_applies_its_operator, law_literal_has_its_value,
    law_name_stands_for_its_register, law_negation_negates, law_operation_computes_the_operator,
    law_parentheses_and_casts_keep_the_value, lemma_plain,
};

verus! {

/// The integers that names stand for.
pub type Names = spec_fn(Seq<char>) -> Option<i64>;

/// The value of an integer expression made of literals, names, parentheses, casts,
/// negations and operators, where it has one.
pub open spec fn eval(names: Names, e: Expr) -> Option<i64>
    decreases e,
{
    match e.kind {
        ExprKind::Lit(Lit::Int(v)) => v,
        ExprKind::Path(p) => match path_ident(p.path) {
            Some(name) => names(name@),
            None => None,
        },
        ExprKind::Paren(x) => eval(names, *x),
        ExprKind::Cast(c) => if is_int_type(c.ty) {
            eval(names, *c.expr)
        } else {
            None
        },
        ExprKind::Unary(u) => match (u.op, eval(names, *u.expr)) {
            (UnOp::Neg, Some(v)) => if v != i64::MIN {
                Some((-v) as i64)
            } else {
                None
            },
            _ => None,
        },
        ExprKind::Binary(b) => match (eval(names, *b.left), eval(names, *b.right)) {
            (Some(x), Some(y)) => if is_word_operator(b.op) {
                match meaning(b.op, x, y) {
                    Some(v) => Some(v as i64),
                    None => None,
                }
            } else {
                None
            },
            _ => None,
        },
        _ => None,
    }
}

/// What the bound names stand for when a machine runs.
pub open spec fn names_of<'a>(s: LowerState<'a>, m: Machine<'a>) -> Names {
    |name: Seq<char>|
        if s.bindings.contains_key(name) && s.bindings[name].kind is Int {
            Some(m.word(s.bindings[name].reg))
        } else {
            None
        }
}

/// Whether every name is bound to a register that was handed out.
pub open spec fn bound_below<'a>(s: LowerState<'a>) -> bool {
    forall|name: Seq<char>|
        s.bindings.contains_key(name) ==> (#[trigger] s.bindings[name]).reg < s.next_reg
}

/// Whether the code of an expression computes a value into a register and leaves all
/// else as it was.
pub open spec fn computes<'a>(w: World<'a>, s: LowerState<'a>, e: &'a Expr, m: Machine<'a>, v: i64) -> bool {
    let (t, r) = value(s, e);
    &&& r is Some
    &&& r->0.kind is Int
    &&& r->0.reg < t.next_reg
    &&& later(s, t)
    &&& exists|n: Machine<'a>| #[trigger]
        ran(w, s, t, m, n) && keeps(s, m, n) && same_state(m, n) && held(n, r->0) == v
}

proof fn lemma_binary_before<'a>(s: LowerState<'a>, e: &'a Expr, b: crate::ast::ExprBinary)
    requires
        e.kind == ExprKind::Binary(b),
        is_word_operator(b.op),
        value(s, &*b.left).1 is Some,
        value(s, &*b.left).1->0.kind is Int,
        value(value(s, &*b.left).0, &*b.right).1 is Some,
        value(value(s, &*b.left).0, &*b.right).1->0.kind is Int,
        value(s, e).0.rejected is None,
    ensures
        value(value(s, &*b.left).0, &*b.right).0.rejected is None,
        later(value(value(s, &*b.left).0, &*b.right).0, value(s, e).0),
{
    lemma_plain(s, e);
    law_operation_computes_the_operator(b.op, 0, 0);
    let (s1, l) = value(s, &*b.left);
    let (s2, r) = value(s1, &*b.right);
    let reg = s2.next_reg;
    lemma_taken(s2);
    lemma_emitted_op(
        s2.reg_taken(),
        OpKind::BinopI,
        seq![int_slot(l->0.reg), int_slot(r->0.reg)],
        seq![int_slot(reg)],
        Op::Binop(reg, binop_opcode(b.op)->0, l->0.reg, r->0.reg),
    );
}

/// A rejection of an operand is a rejection of the whole.
proof fn lemma_operand_rejected<'a>(s: LowerState<'a>, e: &'a Expr)
    requires
        value(s, e).0.rejected is None,
    ensures
        e.kind matches ExprKind::Binary(b) ==> value(s, &*b.left).0.rejected is None,
        e.kind matches ExprKind::Binary(b) ==> value(s, &*b.left).1 is Some ==> value(
            value(s, &*b.left).0,
            &*b.right,
        ).0.rejected is None,
        e.kind matches ExprKind::Unary(u) ==> u.op is Neg ==> value(
            s,
            &*u.expr,
        ).0.rejected is None,
{
    match e.kind {
        ExprKind::Binary(b) => {
            lemma_plain(s, e);
            let (s1, l) = value(s, &*b.left);
            let (s2, r) = value(s1, &*b.right);
            grows_value(s1, &*b.right);
            if l is Some {
                if r is Some && l->0.kind is Int && r->0.kind is Int && binop_opcode(b.op) is Some {
                    law_operation_computes_the_operator(b.op, 0, 0);
                    lemma_binary_before(s, e, b);
                }
                lemma_not_rejected(s1, s2);
            }
        },
        ExprKind::Unary(u) => {
            lemma_plain(s, e);
            let (s1, x) = value(s, &*u.expr);
            if x is Some && x->0.kind is Int && u.op is Neg {
                lemma_taken(s1);
                lemma_emitted_op(
                    s1.reg_taken(),
                    OpKind::UnaryI,
                    seq![int_slot(x->0.reg)],
                    seq![int_slot(s1.next_reg)],
                    Op::IntNeg(s1.next_reg, x->0.reg),
                );
            }
        },
        _ => {},
    }
}

proof fn lemma_names_kept<'a>(
    s: LowerState<'a>,
    t: LowerState<'a>,
    m: Machine<'a>,
    n: Machine<'a>,
)
    requires
        bound_below(s),
        later(s, t),
        keeps(s, m, n),
    ensures
        names_of(t, n) == names_of(s, m),
        bound_below(t),
{
    let after = names_of(t, n);
    let before = names_of(s, m);
    assert forall|name: Seq<char>| #[trigger] after(name) == before(name) by {
        if s.bindings.contains_key(name) && s.bindings[name].kind is Int {
            let r = s.bindings[name].reg;
            assert((n.regs)(BindingKind::Int, r) == (m.regs)(BindingKind::Int, r));
        }
    }
    assert(after =~= before);
    assert forall|name: Seq<char>| t.bindings.contains_key(name) implies (
    #[trigger] t.bindings[name]).reg < t.next_reg by {
        assert(s.bindings[name].reg < s.next_reg);
    }
}

proof fn lemma_binary_computes<'a>(
    w: World<'a>,
    s: LowerState<'a>,
    e: &'a Expr,
    b: crate::ast::ExprBinary,
    m: Machine<'a>,
    x: i64,
    y: i64,
    v: i64,
    p: Machine<'a>,
    n: Machine<'a>,
)
    requires
        e.kind == ExprKind::Binary(b),
        is_word_operator(b.op),
        meaning(b.op, x, y) == Some(v as int),
        value(s, e).0.rejected is None,
        ({
            let (s1, l) = value(s, &*b.left);
            let (s2, r) = value(s1, &*b.right);
            &&& l is Some && l->0.kind is Int && l->0.reg < s1.next_reg
            &&& r is Some && r->0.kind is Int
            &&& later(s, s1)
            &&& later(s1, s2)
            &&& ran(w, s, s1, m, p) && keeps(s, m, p) && same_state(m, p) && held(p, l->0) == x
            &&& ran(w, s1, s2, p, n) && keeps(s1, p, n) && same_state(p, n) && held(n, r->0) == y
        }),
    ensures
        computes(w, s, e, m, v),
{
    let (s1, l) = value(s, &*b.left);
    let (s2, r) = value(s1, &*b.right);
    let (t, out) = value(s, e);
    assert((n.regs)(BindingKind::Int, l->0.reg) == (p.regs)(BindingKind::Int, l->0.reg));
    lemma_binary_before(s, e, b);
    law_binary_applies_its_operator(w, s, e, b, m, p, n);
    let u = choose|u: i64| #[trigger]
        ran(w, s, t, m, n.with_word(out->0.reg, u)) && (meaning(
            b.op,
            held(p, l->0),
            held(n, r->0),
        ) matches Some(i) ==> u == i);
    let end = n.with_word(out->0.reg, u);
    assert forall|k: BindingKind, a: u16| a < s.next_reg implies #[trigger] (end.regs)(k, a) == (
    m.regs)(k, a) by {
        assert((n.regs)(k, a) == (p.regs)(k, a));
        assert((p.regs)(k, a) == (m.regs)(k, a));
    }
    assert(ran(w, s, t, m, end));
}

/// When the code of an integer expression that has a value runs, the register handed
/// back holds that value; registers that were handed out before, and the state, keep
/// what they hold.
pub proof fn law_expressions_are_computed_as_written<'a>(
    w: World<'a>,
    s: LowerState<'a>,
    e: &'a Expr,
    m: Machine<'a>,
)
    requires
        bound_below(s),
        eval(names_of(s, m), *e) is Some,
        value(s, e).0.rejected is None,
    ensures
        computes(w, s, e, m, eval(names_of(s, m), *e)->0),
    decreases e,
{
    let v = eval(names_of(s, m), *e)->0;
    let (t, r) = value(s, e);
    match e.kind {
        ExprKind::Lit(Lit::Int(_)) => {
            law_literal_has_its_value(w, s, e, v, m);
            assert(ran(w, s, t, m, m.with_word(r->0.reg, v)));
        },
        ExprKind::Path(p) => {
            law_name_stands_for_its_register(s, e, p);
            lemma_ran_none(w, s, s, m);
            let name = path_ident(p.path)->0@;
            assert(s.bindings[name].reg < s.next_reg);
            assert(ran(w, s, t, m, m));
        },
        ExprKind::Paren(x) => {
            law_parentheses_and_casts_keep_the_value(s, e);
            law_expressions_are_computed_as_written(w, s, &*x, m);
        },
        ExprKind::Cast(c) => {
            law_parentheses_and_casts_keep_the_value(s, e);
            law_expressions_are_computed_as_written(w, s, &*c.expr, m);
        },
        ExprKind::Unary(u) => {
            lemma_operand_rejected(s, e);
            law_expressions_are_computed_as_written(w, s, &*u.expr, m);
            let (s1, x) = value(s, &*u.expr);
            let y = eval(names_of(s, m), *u.expr)->0;
            let n = choose|n: Machine<'a>| #[trigger]
                ran(w, s, s1, m, n) && keeps(s, m, n) && same_state(m, n) && held(n, x->0) == y;
            law_negation_negates(w, s, e, u, m, n);
            lemma_plain(s, e);
            let neg = choose|neg: i64| #[trigger]
                ran(w, s, t, m, n.with_word(r->0.reg, neg)) && (y != i64::MIN ==> neg == -y);
            let end = n.with_word(r->0.reg, neg);
            assert forall|k: BindingKind, a: u16| a < s.next_reg implies #[trigger] (end.regs)(
                k,
                a,
            ) == (m.regs)(k, a) by {
                assert((n.regs)(k, a) == (m.regs)(k, a));
            }
            lemma_negation_later(s, e, u);
            assert(ran(w, s, t, m, end));
        },
        ExprKind::Binary(b) => {
            let x = eval(names_of(s, m), *b.left)->0;
            let y = eval(names_of(s, m), *b.right)->0;
            lemma_operand_rejected(s, e);
            law_expressions_are_computed_as_written(w, s, &*b.left, m);
            let (s1, l) = value(s, &*b.left);
            let p = choose|n: Machine<'a>| #[trigger]
                ran(w, s, s1, m, n) && keeps(s, m, n) && same_state(m, n) && held(n, l->0) == x;
            lemma_names_kept(s, s1, m, p);
            law_expressions_are_computed_as_written(w, s1, &*b.right, p);
            let (s2, q) = value(s1, &*b.right);
            let n = choose|n: Machine<'a>| #[trigger]
                ran(w, s1, s2, p, n) && keeps(s1, p, n) && same_state(p, n) && held(n, q->0) == y;
            law_operation_computes_the_operator(b.op, x, y);
            lemma_binary_computes(w, s, e, b, m, x, y, v, p, n);
        },
        _ => {},
    }
}

proof fn lemma_negation_later<'a>(s: LowerState<'a>, e: &'a Expr, u: crate::ast::ExprUnary)
    requires
        e.kind == ExprKind::Unary(u),
        u.op is Neg,
        value(s, &*u.expr).1 is Some,
        value(s, &*u.expr).1->0.kind is Int,
        value(s, e).0.rejected is None,
    ensures
        later(value(s, &*u.expr).0, value(s, e).0),
{
    lemma_plain(s, e);
    let (s1, x) = value(s, &*u.expr);
    lemma_taken(s1);
    lemma_emitted_op(
        s1.reg_taken(),
        OpKind::UnaryI,
        seq![int_slot(x->0.reg)],
        seq![int_slot(s1.next_reg)],
        Op::IntNeg(s1.next_reg, x->0.reg),
    );
}

} // verus!
