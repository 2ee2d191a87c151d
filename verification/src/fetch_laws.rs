//! What the fetch of opcodes and operands does.

use vstd::prelude::*;

use crate::ast::{Expr, ExprKind, int_literal, Local, single_ident_is, Stmt};
use crate::code_runs::{
    added, held, later, lemma_aux, lemma_branched, lemma_emitted_op, lemma_label_def,
    lemma_ran_none, lemma_ran_op, lemma_ran_same, lemma_taken, ran,
};
use crate::extended_arg::{check_range, merge, merge_arg, range_check};
use crate::fetch::{
    advance_pc, combine_const, fetch_byte, increment, index_register, load_byte, load_const,
    load_named, pc_offset, program_index,
};
use crate::growth::{mark, marked};
use crate::kinds::BindingKind;
use crate::lowerer::{int_slot, LowerState, ref_slot};
use crate::machine::{
    apply, control, lemma_step_gets, lemma_then, Machine, runs, step, stops_at, World,
};
use crate::ops::{Instr, IntOpcode, Op, OpKind};
use crate::patterns::let_name;

verus! {

/// Whether the registers that were handed out before hold what they held.
pub open spec fn keeps<'a>(s: LowerState<'a>, m: Machine<'a>, n: Machine<'a>) -> bool {
    forall|k: BindingKind, r: u16|
        r < s.next_reg ==> #[trigger] (n.regs)(k, r) == (m.regs)(k, r)
}

/// Whether two machines differ in their registers at most.
pub open spec fn same_state<'a>(m: Machine<'a>, n: Machine<'a>) -> bool {
    &&& m.fields == n.fields
    &&& m.arrays == n.arrays
    &&& m.vable_fields == n.vable_fields
    &&& m.vable_items == n.vable_items
    &&& m.events == n.events
}

/// Whether `pc` is bound to an integer register that was handed out.
pub open spec fn has_pc<'a>(s: LowerState<'a>) -> bool {
    s.bindings.contains_key("pc"@) && s.bindings["pc"@].kind is Int && s.bindings["pc"@].reg
        < s.next_reg
}

/// The register that `pc` is bound to.
pub open spec fn pc_reg<'a>(s: LowerState<'a>) -> u16 {
    s.bindings["pc"@].reg
}

/// Whether an index is `pc` (then the distance is 0) or `pc + distance`.
pub open spec fn is_pc_plus(idx: Expr, distance: i64) -> bool {
    ||| distance == 0 && single_ident_is(idx, "pc"@)
    ||| distance > 0 && match idx.kind {
        ExprKind::Binary(b) => b.op is Add && single_ident_is(*b.left, "pc"@) && int_literal(
            *b.right,
        ) == Some(distance),
        _ => false,
    }
}

proof fn lemma_load_const<'a>(
    w: World<'a>,
    s: LowerState<'a>,
    t: LowerState<'a>,
    v: i64,
    m: Machine<'a>,
    n: Machine<'a>,
)
    requires
        ran(w, s, t, m, n),
        load_const(t.reg_taken(), t.next_reg, v).rejected is None,
    ensures
        ({
            let u = load_const(t.reg_taken(), t.next_reg, v);
            &&& ran(w, s, u, m, n.with_word(t.next_reg, v))
            &&& later(t, u)
            &&& u.next_reg == t.next_reg + 1
            &&& u.next_label == t.next_label
        }),
{
    reveal(load_const);
    lemma_taken(t);
    lemma_ran_same(w, s, t, s, t.reg_taken(), m, n);
    let writes = seq![int_slot(t.next_reg)];
    lemma_ran_op(
        w,
        s,
        t.reg_taken(),
        OpKind::LoadConstI,
        seq![],
        writes,
        Op::LoadConst(t.next_reg, v),
        m,
        n,
    );
    assert(writes[0].reg == t.next_reg);
}

proof fn lemma_combine<'a>(
    w: World<'a>,
    s: LowerState<'a>,
    t: LowerState<'a>,
    dst: u16,
    opcode: IntOpcode,
    a: u16,
    c: u16,
    m: Machine<'a>,
    n: Machine<'a>,
)
    requires
        ran(w, s, t, m, n),
        combine_const(t, dst, opcode, a, c).rejected is None,
    ensures
        ({
            let u = combine_const(t, dst, opcode, a, c);
            &&& ran(w, s, u, m, n.with_word(dst, apply(opcode, n.word(a), n.word(c))))
            &&& later(t, u)
            &&& u.next_reg == t.next_reg
            &&& t.rejected is None
            &&& dst <= 255
        }),
{
    reveal(combine_const);
    let writes = seq![int_slot(dst)];
    lemma_ran_op(
        w,
        s,
        t,
        OpKind::BinopI,
        seq![int_slot(a), int_slot(c)],
        writes,
        Op::Binop(dst, opcode, a, c),
        m,
        n,
    );
    assert(writes[0].reg == dst);
}

/// A rejection of the second operation hides no rejection of the first.
proof fn lemma_combine_before<'a>(t: LowerState<'a>, dst: u16, opcode: IntOpcode, a: u16, c: u16)
    requires
        combine_const(t, dst, opcode, a, c).rejected is None,
    ensures
        t.rejected is None,
        dst <= 255,
{
    reveal(combine_const);
    let writes = seq![int_slot(dst)];
    lemma_emitted_op(
        t,
        OpKind::BinopI,
        seq![int_slot(a), int_slot(c)],
        writes,
        Op::Binop(dst, opcode, a, c),
    );
    assert(writes[0].reg == dst);
}

/// When the code of the index `pc + n` runs with `p` in the register of `pc`, the
/// register handed back holds `p + n`, that of `pc` still holds `p`, and nothing that
/// was handed out before changes. For the index `pc` it is the register of `pc`.
pub proof fn law_index_register_holds_the_index<'a>(
    w: World<'a>,
    s: LowerState<'a>,
    idx: Expr,
    distance: i64,
    m: Machine<'a>,
)
    requires
        has_pc(s),
        is_pc_plus(idx, distance),
        index_register(s, idx).0.rejected is None,
    ensures
        ({
            let (t, r) = index_register(s, idx);
            &&& r is Some
            &&& r->0 < t.next_reg
            &&& later(s, t)
            &&& exists|n: Machine<'a>| #[trigger]
                ran(w, s, t, m, n) && keeps(s, m, n) && same_state(m, n) && n.word(pc_reg(s))
                    == m.word(pc_reg(s)) && (m.word(pc_reg(s)) + distance <= i64::MAX ==> n.word(
                    r->0,
                ) == m.word(pc_reg(s)) + distance)
        }),
{
    reveal(index_register);
    reveal(pc_offset);
    let (t, r) = index_register(s, idx);
    let pc = pc_reg(s);
    if single_ident_is(idx, "pc"@) {
        lemma_ran_none(w, s, s, m);
        assert(ran(w, s, t, m, m));
    } else {
        let c = s.next_reg;
        let s1 = load_const(s.reg_taken(), c, distance);
        let offset = s1.next_reg;
        lemma_combine_before(s1.reg_taken(), offset, IntOpcode::IntAdd, pc, c);
        lemma_taken(s1);
        lemma_ran_none(w, s, s, m);
        lemma_load_const(w, s, s, distance, m, m);
        let x = m.with_word(c, distance);
        lemma_ran_same(w, s, s1, s, s1.reg_taken(), m, x);
        lemma_combine(w, s, s1.reg_taken(), offset, IntOpcode::IntAdd, pc, c, m, x);
        let n = x.with_word(offset, apply(IntOpcode::IntAdd, x.word(pc), x.word(c)));
        assert(ran(w, s, t, m, n));
    }
}

/// When the code of `let name = program[pc + n]` runs with `p` in the register of `pc`,
/// `name` stands for a register with the byte of the program at `p + n`. The register
/// of `pc` still holds `p`, no other name changes, and nothing that was handed out
/// before changes.
pub proof fn law_fetch_reads_the_byte_at_the_index<'a>(
    w: World<'a>,
    s: LowerState<'a>,
    l: &'a Local,
    idx: Expr,
    name: String,
    distance: i64,
    m: Machine<'a>,
)
    requires
        has_pc(s),
        program_index(*l) == Some(idx),
        is_pc_plus(idx, distance),
        let_name(l.pat) == Some(name),
        s.bindings.contains_key("program"@),
        s.bindings["program"@].kind is Ref,
        s.bindings["program"@].reg < s.next_reg,
        m.word(pc_reg(s)) + distance <= i64::MAX,
        fetch_byte(s, l).0.rejected is None,
    ensures
        ({
            let (t, done) = fetch_byte(s, l);
            let p = m.word(pc_reg(s));
            let program = (m.regs)(BindingKind::Ref, s.bindings["program"@].reg);
            &&& done
            &&& t.bindings.contains_key(name@)
            &&& t.bindings == s.bindings.insert(name@, t.bindings[name@])
            &&& t.bindings[name@].kind is Int
            &&& s.next_reg <= t.bindings[name@].reg < t.next_reg
            &&& exists|n: Machine<'a>| #[trigger]
                ran(w, s, t, m, n) && keeps(s, m, n) && same_state(m, n) && n.word(
                    t.bindings[name@].reg,
                ) == (w.bytes)(program, (p + distance) as i64)
        }),
{
    reveal(fetch_byte);
    reveal(LowerState::bind);
    let (s1, r) = index_register(s, idx);
    let index = r->0;
    let program = s.bindings["program"@].reg;
    let dst = s1.next_reg;
    let s2 = load_byte(s1.reg_taken(), dst, program, index);
    assert(r is Some) by {
        reveal(index_register);
        reveal(pc_offset);
    }
    let (t, done) = fetch_byte(s, l);
    assert(s2.rejected is None);
    reveal(load_byte);
    let reads = seq![ref_slot(program), int_slot(index)];
    let writes = seq![int_slot(dst)];
    let op = Op::GetarrayitemGcI(dst, program, index);
    lemma_emitted_op(s1.reg_taken(), OpKind::Vable, reads, writes, op);
    lemma_taken(s1);
    law_index_register_holds_the_index(w, s, idx, distance, m);
    let p = m.word(pc_reg(s));
    let x = choose|n: Machine<'a>| #[trigger]
        ran(w, s, s1, m, n) && keeps(s, m, n) && same_state(m, n) && n.word(pc_reg(s)) == m.word(
            pc_reg(s),
        ) && (m.word(pc_reg(s)) + distance <= i64::MAX ==> n.word(index) == m.word(pc_reg(s))
            + distance);
    lemma_ran_same(w, s, s1, s, s1.reg_taken(), m, x);
    lemma_ran_op(w, s, s1.reg_taken(), OpKind::Vable, reads, writes, op, m, x);
    assert(writes[0].reg == dst);
    let base = (x.regs)(BindingKind::Ref, program);
    assert(base == (m.regs)(BindingKind::Ref, program));
    let n = x.with_word(dst, (w.bytes)(base, x.word(index)));
    lemma_ran_same(w, s, s2, s, t, m, n);
    assert(keeps(s, m, n));
    assert(ran(w, s, t, m, n));
}

/// When the code of `pc += n` or `pc = pc + n` runs with `p` in the register of `pc`,
/// that register then holds `p + n`. Names stand for what they stood for, and no other
/// register that was handed out before changes.
pub proof fn law_advance_adds_to_pc<'a>(
    w: World<'a>,
    s: LowerState<'a>,
    stmt: Stmt,
    distance: i64,
    m: Machine<'a>,
)
    requires
        has_pc(s),
        increment(stmt) == Some(("pc"@, distance)),
        distance > 0,
        m.word(pc_reg(s)) + distance <= i64::MAX,
        advance_pc(s, stmt).0.rejected is None,
    ensures
        ({
            let (t, done) = advance_pc(s, stmt);
            &&& done
            &&& later(s, t)
            &&& exists|n: Machine<'a>| #[trigger]
                ran(w, s, t, m, n) && same_state(m, n) && n.word(pc_reg(s)) == m.word(pc_reg(s))
                    + distance && (forall|k: BindingKind, r: u16|
                    r < s.next_reg && !(k is Int && r == pc_reg(s)) ==> #[trigger] (n.regs)(k, r)
                        == (m.regs)(k, r))
        }),
{
    reveal(advance_pc);
    let pc = pc_reg(s);
    let c = s.next_reg;
    let s1 = load_const(s.reg_taken(), c, distance);
    lemma_combine_before(s1, pc, IntOpcode::IntAdd, pc, c);
    lemma_ran_none(w, s, s, m);
    lemma_load_const(w, s, s, distance, m, m);
    let x = m.with_word(c, distance);
    lemma_combine(w, s, s1, pc, IntOpcode::IntAdd, pc, c, m, x);
    let n = x.with_word(pc, apply(IntOpcode::IntAdd, x.word(pc), x.word(c)));
    assert(ran(w, s, advance_pc(s, stmt).0, m, n));
}

/// Variable and distance of an increment: `name += n` and `name = name + n`.
pub proof fn law_increment_is_an_addition<'a>(stmt: Stmt, name: Seq<char>, distance: i64)
    ensures
        increment(stmt) == Some((name, distance)) ==> match stmt {
            Stmt::Expr(e, _) => match e.kind {
                ExprKind::Binary(b) => b.op is AddAssign && single_ident_is(*b.left, name)
                    && int_literal(*b.right) == Some(distance),
                ExprKind::Assign(a) => single_ident_is(*a.left, name) && match a.right.kind {
                    ExprKind::Binary(b) => b.op is Add && single_ident_is(*b.left, name)
                        && int_literal(*b.right) == Some(distance),
                    _ => false,
                },
                _ => false,
            },
            _ => false,
        },
{
    reveal(increment);
}

// ── The extended argument ────────────────────────────────────────────

/// When the code of `oparg = (oparg * factor) | arg` runs, the register of `oparg` then
/// holds its former value times the factor, with the bits of `arg` set. No other
/// register that was handed out before changes.
pub proof fn law_merge_shifts_in_the_argument<'a>(
    w: World<'a>,
    s: LowerState<'a>,
    stmt: Stmt,
    oparg: u16,
    factor: i64,
    arg: u16,
    m: Machine<'a>,
)
    requires
        merge(s.bindings, stmt) == Some((oparg, factor, arg)),
        oparg < s.next_reg,
        arg < s.next_reg,
        oparg != arg,
        i64::MIN <= m.word(oparg) * factor <= i64::MAX,
        merge_arg(s, stmt).0.rejected is None,
    ensures
        ({
            let (t, done) = merge_arg(s, stmt);
            &&& done
            &&& later(s, t)
            &&& exists|n: Machine<'a>| #[trigger]
                ran(w, s, t, m, n) && same_state(m, n) && n.word(oparg) == ((m.word(oparg)
                    * factor) as i64) | m.word(arg) && (forall|k: BindingKind, r: u16|
                    r < s.next_reg && !(k is Int && r == oparg) ==> #[trigger] (n.regs)(k, r)
                        == (m.regs)(k, r))
        }),
{
    reveal(merge_arg);
    let c = s.next_reg;
    let s1 = load_const(s.reg_taken(), c, factor);
    let s2 = combine_const(s1, oparg, IntOpcode::IntMul, oparg, c);
    lemma_combine_before(s2, oparg, IntOpcode::IntOr, oparg, arg);
    lemma_combine_before(s1, oparg, IntOpcode::IntMul, oparg, c);
    lemma_ran_none(w, s, s, m);
    lemma_load_const(w, s, s, factor, m, m);
    let x = m.with_word(c, factor);
    lemma_combine(w, s, s1, oparg, IntOpcode::IntMul, oparg, c, m, x);
    let y = x.with_word(oparg, apply(IntOpcode::IntMul, x.word(oparg), x.word(c)));
    lemma_combine(w, s, s2, oparg, IntOpcode::IntOr, oparg, arg, m, y);
    let n = y.with_word(oparg, apply(IntOpcode::IntOr, y.word(oparg), y.word(arg)));
    assert(ran(w, s, merge_arg(s, stmt).0, m, n));
}

/// When the code of `if local < CONSTANT { panic!(..) }` runs, the trace is aborted
/// where the local is less than the constant, and control goes on behind the code
/// where it is not. Nothing that was handed out before changes.
pub proof fn law_range_check_aborts_below_the_constant<'a>(
    w: World<'a>,
    s: LowerState<'a>,
    stmt: &'a Stmt,
    local: u16,
    name: String,
    m: Machine<'a>,
)
    requires
        range_check(s.bindings, *stmt) == Some((local, name)),
        local < s.next_reg,
        check_range(s, stmt).0.rejected is None,
    ensures
        ({
            let (t, done) = check_range(s, stmt);
            let n = m.with_word(s.next_reg, (w.named)(name@));
            &&& done
            &&& later(s, t)
            &&& keeps(s, m, n) && same_state(m, n)
            &&& m.word(local) < (w.named)(name@) ==> stops_at(
                w,
                added(s, t),
                m,
                n,
                Instr::Op(Op::Abort),
            )
            &&& m.word(local) >= (w.named)(name@) ==> ran(w, s, t, m, n)
        }),
{
    reveal(check_range);
    let c = s.next_reg;
    let a = s.reg_taken();
    let s1 = load_named(a, c, &name);
    let ok = s1.fresh_label();
    let b = s1.label_taken();
    let d = b.aux(Op::NewLabel(ok));
    let reads = seq![int_slot(local), int_slot(c)];
    let goto = Op::GotoIfNotIntLt(local, c, ok);
    let f = d.branch(reads, ok, goto);
    let g = f.terminal(seq![], Op::Abort);
    let t = g.label_def(ok);
    lemma_label_def(g, ok);
    assert(f.rejected is None && g.statements == f.statements.push(Instr::Op(Op::Abort))
        && later(f, g)) by {
        reveal(LowerState::terminal);
        reveal(LowerState::push);
        reveal(LowerState::reject);
        crate::code_runs::lemma_fit(seq![]);
    }
    lemma_branched(d, reads, ok, goto);
    lemma_aux(b, Op::NewLabel(ok));
    lemma_taken(s1);
    reveal(load_named);
    let writes = seq![int_slot(c)];
    lemma_emitted_op(a, OpKind::LoadConstI, seq![], writes, Op::LoadNamedConst(c, &name));
    lemma_taken(s);
    let n = m.with_word(c, (w.named)(name@));
    let code = added(s, t);
    assert(code =~= seq![
        Instr::Op(Op::LoadNamedConst(c, &name)),
        Instr::Op(Op::NewLabel(ok)),
        Instr::Op(goto),
        Instr::Op(Op::Abort),
        mark(ok),
    ]);
    assert(s.statements.is_prefix_of(t.statements));
    assert(step(w, code, m, 0, n, 1));
    assert(step(w, code, n, 1, n, 2));
    lemma_step_gets(w, code, m, 0, n, 1);
    lemma_step_gets(w, code, n, 1, n, 2);
    lemma_then(w, code, m, 0, n, 1, n, 2);
    if m.word(local) < (w.named)(name@) {
        assert(step(w, code, n, 2, n, 3));
        lemma_step_gets(w, code, n, 2, n, 3);
        lemma_then(w, code, m, 0, n, 2, n, 3);
        assert(code[3] == Instr::Op::<Seq<crate::kinds::Register>, Seq<(u16, u16)>, Seq<u8>>(
            Op::Abort,
        ));
    } else {
        assert(marked(code, 4, ok));
        assert(step(w, code, n, 2, n, 4));
        assert(step(w, code, n, 4, n, 5));
        lemma_step_gets(w, code, n, 2, n, 4);
        lemma_step_gets(w, code, n, 4, n, 5);
        lemma_then(w, code, m, 0, n, 2, n, 4);
        lemma_then(w, code, m, 0, n, 4, n, 5);
        reveal(ran);
    }
}

} // verus!
