//! What runs when lowering adds code.

use vstd::prelude::*;

use crate::growth::{grows, mark};
use crate::kinds::Binding;
use crate::lower_spec::Branch;
use crate::lowerer::{first_overflow, LowerState, Slot};
use crate::machine::{
    control, effect, lemma_run_both, lemma_run_none, lemma_run_push, Machine, op_effect, runs,
    World,
};
use crate::ops::{Instr, Label, LiveMarkerCondition, Op, OpKind, StmtView};

verus! {

/// The code that was added between two states.
pub open spec fn added<'a>(s: LowerState<'a>, t: LowerState<'a>) -> Seq<StmtView<'a>> {
    t.statements.skip(s.statements.len() as int)
}

/// Whether the code that was added between two states runs from its start to its
/// end.
#[verifier::opaque]
pub open spec fn ran<'a>(
    w: World<'a>,
    s: LowerState<'a>,
    t: LowerState<'a>,
    m: Machine<'a>,
    n: Machine<'a>,
) -> bool {
    s.statements.is_prefix_of(t.statements) && runs(w, added(s, t), m, n)
}

/// What a register holds.
pub open spec fn held<'a>(m: Machine<'a>, b: Binding) -> i64 {
    (m.regs)(b.kind, b.reg)
}

/// Whether a state is like another but for the code, with registers and labels
/// handed out in between: names stand for the same registers.
pub open spec fn later<'a>(s: LowerState<'a>, q: LowerState<'a>) -> bool {
    &&& q.ctx == s.ctx
    &&& q.bindings == s.bindings
    &&& s.next_reg <= q.next_reg
    &&& s.next_label <= q.next_label
}

/// Whether one statement was added and nothing else changed.
pub open spec fn adds_one<'a>(s: LowerState<'a>, t: LowerState<'a>, stmt: StmtView<'a>) -> bool {
    &&& s.rejected is None
    &&& t.rejected is None
    &&& t.statements == s.statements.push(stmt)
    &&& t.ctx == s.ctx
    &&& t.bindings == s.bindings
    &&& t.next_reg == s.next_reg
    &&& t.next_label == s.next_label
    &&& t.opcode_var == s.opcode_var
}

/// Whether every register of a list fits its bank.
pub open spec fn all_fit(slots: Seq<Slot>) -> bool {
    forall|i: int| 0 <= i < slots.len() ==> (#[trigger] slots[i]).reg <= 255
}

pub proof fn lemma_fit(slots: Seq<Slot>)
    ensures
        first_overflow(slots) is None == all_fit(slots),
    decreases slots.len(),
{
    reveal(first_overflow);
    if slots.len() > 0 {
        lemma_fit(slots.drop_first());
        let rest = slots.drop_first();
        if all_fit(slots) {
            assert forall|i: int| 0 <= i < rest.len() implies (#[trigger] rest[i]).reg <= 255 by {
                assert(rest[i] == slots[i + 1]);
            }
        }
        if slots[0].reg <= 255 && all_fit(rest) {
            assert forall|i: int| 0 <= i < slots.len() implies (#[trigger] slots[i]).reg <= 255 by {
                if i > 0 {
                    assert(rest[i - 1] == slots[i]);
                }
            }
        }
    }
}

pub proof fn lemma_emitted<'a>(
    s: LowerState<'a>,
    kind: OpKind,
    reads: Seq<Slot>,
    writes: Seq<Slot>,
    stmt: StmtView<'a>,
)
    requires
        s.emit(kind, reads, writes, stmt).rejected is None,
    ensures
        adds_one(s, s.emit(kind, reads, writes, stmt), stmt),
        all_fit(reads),
        all_fit(writes),
{
    reveal(LowerState::emit);
    reveal(LowerState::push);
    reveal(LowerState::reject);
    lemma_fit(reads);
    lemma_fit(writes);
}

pub proof fn lemma_emitted_op<'a>(
    s: LowerState<'a>,
    kind: OpKind,
    reads: Seq<Slot>,
    writes: Seq<Slot>,
    op: Op<'a>,
)
    requires
        s.emit_op(kind, reads, writes, op).rejected is None,
    ensures
        adds_one(s, s.emit_op(kind, reads, writes, op), Instr::Op(op)),
        all_fit(reads),
        all_fit(writes),
{
    reveal(LowerState::emit_op);
    lemma_emitted(s, kind, reads, writes, Instr::Op(op));
}

pub proof fn lemma_guarded<'a>(s: LowerState<'a>, cond: u16, target: Label)
    requires
        s.guard(cond, target).rejected is None,
    ensures
        adds_one(s, s.guard(cond, target), Instr::Op(Op::GotoIfNotIntIsTrue(cond, target))),
{
    reveal(LowerState::guard);
    reveal(LowerState::branch);
    reveal(LowerState::push);
    reveal(LowerState::reject);
}

pub proof fn lemma_branched<'a>(s: LowerState<'a>, reads: Seq<Slot>, target: Label, op: Op<'a>)
    requires
        s.branch(reads, target, op).rejected is None,
    ensures
        adds_one(s, s.branch(reads, target, op), Instr::Op(op)),
{
    reveal(LowerState::branch);
    reveal(LowerState::push);
    reveal(LowerState::reject);
}

pub proof fn lemma_live<'a>(s: LowerState<'a>)
    requires
        s.live().rejected is None,
    ensures
        adds_one(s, s.live(), Instr::Op(Op::LivePlaceholder)),
{
    reveal(LowerState::live);
    reveal(LowerState::push);
}

pub proof fn lemma_live_if<'a>(s: LowerState<'a>, c: LiveMarkerCondition<'a>)
    requires
        s.live_if(c).rejected is None,
    ensures
        adds_one(s, s.live_if(c), Instr::Op(Op::LivePlaceholder)),
{
    reveal(LowerState::live_if);
    reveal(LowerState::push);
}

pub proof fn lemma_aux<'a>(s: LowerState<'a>, op: Op<'a>)
    requires
        s.aux(op).rejected is None,
    ensures
        adds_one(s, s.aux(op), Instr::Op(op)),
{
    reveal(LowerState::aux);
    reveal(LowerState::push);
}

pub proof fn lemma_label_def<'a>(s: LowerState<'a>, l: Label)
    requires
        s.label_def(l).rejected is None,
    ensures
        adds_one(s, s.label_def(l), mark(l)),
{
    reveal(LowerState::label_def);
    reveal(LowerState::push);
}

pub proof fn lemma_jump<'a>(s: LowerState<'a>, l: Label)
    requires
        s.jump(l).rejected is None,
    ensures
        adds_one(s, s.jump(l), Instr::Op(Op::Jump(l))),
{
    reveal(LowerState::jump);
    reveal(LowerState::push);
}

pub proof fn lemma_append<'a>(s: LowerState<'a>, b: Branch<'a>)
    ensures
        s.append(b).statements == s.statements + b.0,
        s.append(b).rejected == s.rejected,
        later(s, s.append(b)),
        s.append(b).next_reg == s.next_reg,
        s.append(b).next_label == s.next_label,
{
    reveal(LowerState::append);
}

/// To hand out a register or a label adds no code.
pub proof fn lemma_taken<'a>(s: LowerState<'a>)
    ensures
        s.reg_taken().statements == s.statements,
        s.reg_taken().rejected == s.rejected,
        s.reg_taken().opcode_var == s.opcode_var,
        s.reg_taken().next_label == s.next_label,
        s.next_reg < u16::MAX ==> s.reg_taken().next_reg == s.next_reg + 1,
        later(s, s.reg_taken()),
        s.label_taken().statements == s.statements,
        s.label_taken().rejected == s.rejected,
        s.label_taken().opcode_var == s.opcode_var,
        s.label_taken().next_reg == s.next_reg,
        s.next_label < u16::MAX ==> s.label_taken().next_label == s.next_label + 1,
        later(s, s.label_taken()),
{
    reveal(LowerState::reg_taken);
    reveal(LowerState::label_taken);
}

/// What was rejected stays rejected.
pub proof fn lemma_not_rejected<'a>(s: LowerState<'a>, t: LowerState<'a>)
    requires
        grows(s, t),
        t.rejected is None,
    ensures
        s.rejected is None,
        s.statements.is_prefix_of(t.statements),
        s.ctx == t.ctx,
        s.next_reg <= t.next_reg,
        s.next_label <= t.next_label,
{
    reveal(grows);
}

// ── Runs ─────────────────────────────────────────────────────────────

pub proof fn lemma_ran_none<'a>(w: World<'a>, s: LowerState<'a>, t: LowerState<'a>, m: Machine<'a>)
    requires
        s.statements == t.statements,
    ensures
        ran(w, s, t, m, m),
{
    reveal(ran);
    assert(added(s, t) =~= seq![]);
    lemma_run_none(w, m);
}

pub proof fn lemma_ran_one<'a>(
    w: World<'a>,
    s: LowerState<'a>,
    t: LowerState<'a>,
    u: LowerState<'a>,
    stmt: StmtView<'a>,
    m: Machine<'a>,
    n: Machine<'a>,
)
    requires
        ran(w, s, t, m, n),
        u.statements == t.statements.push(stmt),
        control(stmt, n) is Falls,
    ensures
        ran(w, s, u, m, effect(w, stmt, n)),
{
    reveal(ran);
    lemma_run_push(w, added(s, t), stmt, m, n);
    assert(added(s, u) =~= added(s, t).push(stmt));
    assert(s.statements.is_prefix_of(u.statements)) by {
        assert forall|i: int| 0 <= i < s.statements.len() implies s.statements[i]
            == u.statements[i] by {
            assert(s.statements[i] == t.statements[i]);
        }
    }
}

pub proof fn lemma_ran_both<'a>(
    w: World<'a>,
    s: LowerState<'a>,
    t: LowerState<'a>,
    u: LowerState<'a>,
    m: Machine<'a>,
    x: Machine<'a>,
    n: Machine<'a>,
)
    requires
        ran(w, s, t, m, x),
        ran(w, t, u, x, n),
    ensures
        ran(w, s, u, m, n),
{
    reveal(ran);
    lemma_added_both(s, t, u);
    lemma_run_both(w, added(s, t), added(t, u), m, x, n);
}

pub proof fn lemma_added_both<'a>(s: LowerState<'a>, t: LowerState<'a>, u: LowerState<'a>)
    requires
        s.statements.is_prefix_of(t.statements),
        t.statements.is_prefix_of(u.statements),
    ensures
        s.statements.is_prefix_of(u.statements),
        added(s, u) == added(s, t) + added(t, u),
{
    assert forall|i: int| 0 <= i < s.statements.len() implies s.statements[i]
        == u.statements[i] by {
        assert(s.statements[i] == t.statements[i]);
        assert(t.statements[i] == u.statements[i]);
    }
    assert forall|i: int| 0 <= i < added(s, u).len() implies added(s, u)[i] == (added(s, t)
        + added(t, u))[i] by {
        let j = i + s.statements.len();
        if j < t.statements.len() {
            assert(t.statements[j] == u.statements[j]);
        }
    }
    assert(added(s, u) =~= added(s, t) + added(t, u));
}

/// The state from which a run is counted matters by its code only.
pub proof fn lemma_ran_same<'a>(
    w: World<'a>,
    s: LowerState<'a>,
    t: LowerState<'a>,
    p: LowerState<'a>,
    q: LowerState<'a>,
    m: Machine<'a>,
    n: Machine<'a>,
)
    requires
        ran(w, s, t, m, n),
        p.statements == s.statements,
        q.statements == t.statements,
    ensures
        ran(w, p, q, m, n),
{
    reveal(ran);
}

/// One operation behind a run.
pub proof fn lemma_ran_op<'a>(
    w: World<'a>,
    s: LowerState<'a>,
    t: LowerState<'a>,
    kind: OpKind,
    reads: Seq<Slot>,
    writes: Seq<Slot>,
    op: Op<'a>,
    m: Machine<'a>,
    n: Machine<'a>,
)
    requires
        ran(w, s, t, m, n),
        t.emit_op(kind, reads, writes, op).rejected is None,
        control(Instr::Op(op), n) is Falls,
    ensures
        ran(w, s, t.emit_op(kind, reads, writes, op), m, op_effect(w, op, n)),
        adds_one(t, t.emit_op(kind, reads, writes, op), Instr::Op(op)),
        all_fit(reads),
        all_fit(writes),
{
    lemma_emitted_op(t, kind, reads, writes, op);
    lemma_ran_one(w, s, t, t.emit_op(kind, reads, writes, op), Instr::Op(op), m, n);
}

} // verus!
