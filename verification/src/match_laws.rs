//! What a `match` does when it runs.

use vstd::prelude::*;

use crate::ast::{Arm, Expr};
use crate::dispatch_laws::{has_mark, Registers, with_register};
use crate::growth::{
    branch_between, group_labels, grows, grows_aux, grows_further, grows_jump, grows_label_taken,
    grows_labels, grows_reg_taken, grows_self, mark, marked, no_mark,
};
use crate::growth_forms::{
    grows_arm_test, grows_branch_expr, grows_branch_value, grows_match_stmt_arms,
    grows_match_value_arms, grows_move_int, grows_or_literals,
};
use crate::kinds::Binding;
use crate::lower_spec::{
    arm_literals, arm_test, arms_testable, Branch, branch_expr, branch_value, default_arm,
    is_default_arm, load_and_compare, match_stmt, match_stmt_arms, match_value, match_value_arms,
    match_value_chain, move_int, or_literals, test_literal, value,
};
use crate::lowerer::{first_overflow, int_slot, LowerState};
use crate::ops::{Instr, IntOpcode, Label, Op, OpKind, StmtView};

verus! {

// ── Running ──────────────────────────────────────────────────────────

/// What the registers hold behind a statement that loads a constant, moves a
/// register, compares two or combines two. No other statement changes a register
/// here.
pub open spec fn behind<'a>(stmt: StmtView<'a>, regs: Registers) -> Registers {
    match stmt {
        Instr::Op(Op::LoadConst(c, v)) => with_register(regs, c, v),
        Instr::Op(Op::MoveI(dst, src)) => with_register(regs, dst, regs(src)),
        Instr::Op(Op::Binop(dst, IntOpcode::IntEq, a, b)) => with_register(
            regs,
            dst,
            if regs(a) == regs(b) {
                1
            } else {
                0
            },
        ),
        Instr::Op(Op::Binop(dst, IntOpcode::IntOr, a, b)) => with_register(
            regs,
            dst,
            regs(a) | regs(b),
        ),
        _ => regs,
    }
}

/// Whether control goes on behind the statement, and the statement does no more
/// than `behind` says.
pub open spec fn falls_through<'a>(stmt: StmtView<'a>) -> bool {
    match stmt {
        Instr::Op(op) => match op {
            Op::LoadConst(_, _)
            | Op::MoveI(_, _)
            | Op::Binop(_, IntOpcode::IntEq, _, _)
            | Op::Binop(_, IntOpcode::IntOr, _, _)
            | Op::NewLabel(_)
            | Op::MarkLabel(_)
            | Op::LivePlaceholder => true,
            _ => false,
        },
        _ => false,
    }
}

/// Registers and place behind one step from `pc` on. A branch goes to its label
/// where its register is 0. Statements that belong to the bodies of arms have no
/// step.
pub open spec fn step<'a>(code: Seq<StmtView<'a>>, regs: Registers, pc: int) -> Option<
    (Registers, int),
> {
    if !(0 <= pc < code.len()) {
        None
    } else if falls_through(code[pc]) {
        Some((behind(code[pc], regs), pc + 1))
    } else {
        match code[pc] {
            Instr::Op(Op::GotoIfNotIntIsTrue(r, l)) => if regs(r) != 0 {
                Some((regs, pc + 1))
            } else if has_mark(code, l) {
                Some((regs, choose|q: int| marked(code, q, l)))
            } else {
                None
            },
            Instr::Op(Op::Jump(l)) => if has_mark(code, l) {
                Some((regs, choose|q: int| marked(code, q, l)))
            } else {
                None
            },
            _ => None,
        }
    }
}

/// Registers and place behind so many steps.
pub open spec fn after_steps<'a>(
    code: Seq<StmtView<'a>>,
    regs: Registers,
    pc: int,
    steps: nat,
) -> Option<(Registers, int)>
    decreases steps,
{
    if steps == 0 {
        Some((regs, pc))
    } else {
        match step(code, regs, pc) {
            Some((r, p)) => after_steps(code, r, p, (steps - 1) as nat),
            None => None,
        }
    }
}

/// Whether code that runs from `pc` on gets to `to`, with `now` in the registers.
pub open spec fn reaches<'a>(
    code: Seq<StmtView<'a>>,
    regs: Registers,
    pc: int,
    now: Registers,
    to: int,
) -> bool {
    exists|steps: nat| #[trigger] after_steps(code, regs, pc, steps) == Some((now, to))
}

/// Whether the registers below `floor` are as they were.
pub open spec fn kept(regs: Registers, now: Registers, floor: u16) -> bool {
    forall|r: u16| r < floor ==> #[trigger] now(r) == regs(r)
}

proof fn lemma_stays<'a>(code: Seq<StmtView<'a>>, regs: Registers, pc: int)
    ensures
        reaches(code, regs, pc, regs, pc),
{
    assert(after_steps(code, regs, pc, 0) == Some((regs, pc)));
}

proof fn lemma_step<'a>(
    code: Seq<StmtView<'a>>,
    regs: Registers,
    pc: int,
    r: Registers,
    p: int,
    now: Registers,
    to: int,
)
    requires
        step(code, regs, pc) == Some((r, p)),
        reaches(code, r, p, now, to),
    ensures
        reaches(code, regs, pc, now, to),
{
    let n = choose|n: nat| #[trigger] after_steps(code, r, p, n) == Some((now, to));
    assert(after_steps(code, regs, pc, n + 1) == Some((now, to)));
}

proof fn lemma_steps_add<'a>(
    code: Seq<StmtView<'a>>,
    regs: Registers,
    pc: int,
    n: nat,
    mid: Registers,
    at: int,
    now: Registers,
    to: int,
)
    requires
        after_steps(code, regs, pc, n) == Some((mid, at)),
        reaches(code, mid, at, now, to),
    ensures
        reaches(code, regs, pc, now, to),
    decreases n,
{
    if n > 0 {
        let (r, p) = step(code, regs, pc)->0;
        lemma_steps_add(code, r, p, (n - 1) as nat, mid, at, now, to);
        lemma_step(code, regs, pc, r, p, now, to);
    }
}

proof fn lemma_reaches_further<'a>(
    code: Seq<StmtView<'a>>,
    regs: Registers,
    pc: int,
    mid: Registers,
    at: int,
    now: Registers,
    to: int,
)
    requires
        reaches(code, regs, pc, mid, at),
        reaches(code, mid, at, now, to),
    ensures
        reaches(code, regs, pc, now, to),
{
    let n = choose|n: nat| #[trigger] after_steps(code, regs, pc, n) == Some((mid, at));
    lemma_steps_add(code, regs, pc, n, mid, at, now, to);
}

/// Whether a label is defined at `q` and nowhere else.
spec fn only_mark<'a>(code: Seq<StmtView<'a>>, q: int, l: Label) -> bool {
    marked(code, q, l) && forall|x: int| #[trigger] marked(code, x, l) ==> x == q
}

/// A jump, or a branch on a register that is 0, goes to where its label is defined.
proof fn lemma_goes<'a>(
    code: Seq<StmtView<'a>>,
    regs: Registers,
    pc: int,
    q: int,
    l: Label,
    now: Registers,
    to: int,
)
    requires
        0 <= pc < code.len(),
        code[pc] matches Instr::Op(op) && match op {
            Op::Jump(at) => at == l,
            Op::GotoIfNotIntIsTrue(r, at) => at == l && regs(r) == 0,
            _ => false,
        },
        only_mark(code, q, l),
        reaches(code, regs, q, now, to),
    ensures
        reaches(code, regs, pc, now, to),
{
    assert(marked(code, q, l));
    let target = choose|x: int| marked(code, x, l);
    assert(marked(code, target, l));
    assert(step(code, regs, pc) == Some((regs, q)));
    lemma_step(code, regs, pc, regs, q, now, to);
}

// ── The test of an arm ───────────────────────────────────────────────

/// What the registers hold behind code without jumps.
pub open spec fn behind_all<'a>(code: Seq<StmtView<'a>>, regs: Registers) -> Registers
    decreases code.len(),
{
    if code.len() == 0 {
        regs
    } else {
        behind(code.last(), behind_all(code.drop_last(), regs))
    }
}

proof fn lemma_one_more<'a>(code: Seq<StmtView<'a>>, stmt: StmtView<'a>, regs: Registers)
    ensures
        behind_all(code.push(stmt), regs) == behind(stmt, behind_all(code, regs)),
{
    assert(code.push(stmt).drop_last() =~= code);
}

/// What was added to the statements of a state from the `n`th on.
spec fn added<'a>(s: LowerState<'a>, n: int) -> Seq<StmtView<'a>> {
    s.statements.skip(n)
}

/// Whether all code falls through and defines no label.
spec fn straight<'a>(code: Seq<StmtView<'a>>) -> bool {
    forall|k: int| 0 <= k < code.len() ==> falls_through(#[trigger] code[k]) && no_mark(code[k])
}

/// Whether register `acc` holds 1 where the discriminant is among the first `i`
/// literals and 0 where it is not, and the registers below `floor` are unchanged.
spec fn decides<'a>(
    s: LowerState<'a>,
    n: int,
    regs: Registers,
    disc: u16,
    lits: Seq<i64>,
    i: int,
    acc: u16,
    floor: u16,
) -> bool {
    let now = behind_all(added(s, n), regs);
    &&& 0 <= n <= s.statements.len()
    &&& disc < floor <= s.next_reg
    &&& acc < s.next_reg
    &&& straight(added(s, n))
    &&& kept(regs, now, floor)
    &&& now(acc) == (if lits.take(i).contains(regs(disc)) {
        1i64
    } else {
        0
    })
}

/// A comparison pushes its two statements, and leaves its outcome in `eq`.
proof fn lemma_compare<'a>(
    s: LowerState<'a>,
    n: int,
    regs: Registers,
    disc: u16,
    v: i64,
    c: u16,
    eq: u16,
)
    requires
        0 <= n <= s.statements.len(),
        load_and_compare(s, disc, v, c, eq).rejected is None,
        disc != c,
        disc != eq,
    ensures
        c <= 255 && eq <= 255,
        s.rejected is None,
        ({
            let t = load_and_compare(s, disc, v, c, eq);
            let before = behind_all(added(s, n), regs);
            let now = behind_all(added(t, n), regs);
            &&& t.next_reg == s.next_reg
            &&& n <= t.statements.len()
            &&& straight(added(s, n)) ==> straight(added(t, n))
            &&& now(eq) == (if before(disc) == v {
                1i64
            } else {
                0
            })
            &&& forall|r: u16| r != c && r != eq ==> #[trigger] now(r) == before(r)
        }),
{
    reveal(load_and_compare);
    reveal(LowerState::emit_op);
    reveal(LowerState::emit);
    reveal(LowerState::push);
    reveal(LowerState::reject);
    reveal_with_fuel(first_overflow, 3);
    let t = load_and_compare(s, disc, v, c, eq);
    let old_code = added(s, n);
    let load: StmtView<'a> = Instr::Op(Op::LoadConst(c, v));
    let compare: StmtView<'a> = Instr::Op(Op::Binop(eq, IntOpcode::IntEq, disc, c));
    assert(added(t, n) =~= old_code.push(load).push(compare));
    lemma_one_more(old_code, load, regs);
    lemma_one_more(old_code.push(load), compare, regs);
}

proof fn lemma_or_decides<'a>(
    s: LowerState<'a>,
    n: int,
    regs: Registers,
    disc: u16,
    lits: Seq<i64>,
    i: int,
    acc: u16,
    floor: u16,
)
    requires
        0 <= i <= lits.len(),
        or_literals(s, disc, lits, i, acc).0.rejected is None,
        decides(s, n, regs, disc, lits, i, acc, floor),
    ensures
        ({
            let (t, outcome) = or_literals(s, disc, lits, i, acc);
            decides(t, n, regs, disc, lits, lits.len() as int, outcome, floor)
        }),
    decreases lits.len() - i,
{
    reveal(or_literals);
    if i < lits.len() {
        let c = s.next_reg;
        let eq = s.reg_taken().next_reg;
        let or = s.reg_taken().reg_taken().next_reg;
        let s0 = s.reg_taken().reg_taken().reg_taken();
        let s1 = load_and_compare(s0, disc, lits[i], c, eq);
        let s2 = s1.emit_op(
            OpKind::BinopI,
            seq![int_slot(acc), int_slot(eq)],
            seq![int_slot(or)],
            Op::Binop(or, IntOpcode::IntOr, acc, eq),
        );
        let t = or_literals(s2, disc, lits, i + 1, or).0;
        assert(s2.rejected is None) by {
            grows_or_literals(s2, disc, lits, i + 1, or);
            reveal(grows);
        }
        let join: StmtView<'a> = Instr::Op(Op::Binop(or, IntOpcode::IntOr, acc, eq));
        assert(s1.rejected is None && or <= 255 && s2.next_reg == s1.next_reg && added(s2, n)
            =~= added(s1, n).push(join) && n <= s1.statements.len() < s2.statements.len()) by {
            reveal(LowerState::emit_op);
            reveal(LowerState::emit);
            reveal(LowerState::push);
            reveal(LowerState::reject);
            reveal(load_and_compare);
            reveal(LowerState::reg_taken);
            reveal_with_fuel(first_overflow, 3);
        }
        assert(eq == c + 1 && or == c + 2 && s0.next_reg == c + 3 && s0.statements == s.statements) by {
            reveal(LowerState::reg_taken);
        }
        lemma_compare(s0, n, regs, disc, lits[i], c, eq);
        lemma_one_more(added(s1, n), join, regs);
        let v = regs(disc);
        let before = behind_all(added(s1, n), regs);
        let now = behind_all(added(s2, n), regs);
        let a = before(acc);
        let b = before(eq);
        assert(before(disc) == v) by {
            assert(behind_all(added(s, n), regs)(disc) == v);
        }
        assert(before(acc) == behind_all(added(s, n), regs)(acc));
        assert((a | b) == (if a == 1 || b == 1 {
            1i64
        } else {
            0
        })) by (bit_vector)
            requires
                a == 0 || a == 1,
                b == 0 || b == 1,
        ;
        assert(lits.take(i + 1).contains(v) <==> lits.take(i).contains(v) || lits[i] == v) by {
            let more = lits.take(i + 1);
            let fewer = lits.take(i);
            if more.contains(v) {
                let x = choose|x: int| 0 <= x < more.len() && more[x] == v;
                if x < i {
                    assert(fewer[x] == v);
                }
            }
            if fewer.contains(v) {
                let x = choose|x: int| 0 <= x < fewer.len() && fewer[x] == v;
                assert(more[x] == v);
            }
            assert(more[i] == lits[i]);
        }
        assert(now(or) == (a | b));
        assert(straight(added(s2, n)));
        assert(kept(regs, now, floor)) by {
            assert forall|r: u16| r < floor implies #[trigger] now(r) == regs(r) by {
                assert(now(r) == before(r));
                assert(before(r) == behind_all(added(s, n), regs)(r));
            }
        }
        assert(decides(s2, n, regs, disc, lits, i + 1, or, floor));
        lemma_or_decides(s2, n, regs, disc, lits, i + 1, or, floor);
    }
}

/// The test of an arm ends in a branch to `next` on one register. Where the test
/// runs and is not rejected, that register is 0, so that control goes to `next`,
/// exactly where the discriminant is none of the arm's literals. All before the
/// branch falls through, and registers that were handed out before are unchanged.
/// The discriminant has to be in one of them.
pub proof fn law_arm_test_asks_for_its_literals<'a>(
    s: LowerState<'a>,
    disc: u16,
    lits: Seq<i64>,
    next: Label,
    regs: Registers,
)
    requires
        lits.len() > 0,
        disc < s.next_reg,
        arm_test(s, disc, lits, next).rejected is None,
    ensures
        s.statements.is_prefix_of(arm_test(s, disc, lits, next).statements),
        ({
            let code = arm_test(s, disc, lits, next).statements.skip(s.statements.len() as int);
            let now = behind_all(code.drop_last(), regs);
            &&& code.len() > 0
            &&& kept(regs, now, s.next_reg)
            &&& forall|k: int| 0 <= k < code.len() - 1 ==> falls_through(#[trigger] code[k]) && no_mark(
                code[k],
            )
            &&& code.last() matches Instr::Op(op) && op matches Op::GotoIfNotIntIsTrue(r, l) && l
                == next && (now(r) == 0 <==> !lits.contains(regs(disc)))
        }),
{
    reveal(arm_test);
    let n = s.statements.len() as int;
    let c = s.next_reg;
    let eq = s.reg_taken().next_reg;
    let s0 = s.reg_taken().reg_taken();
    let s1 = test_literal(s, disc, lits[0]);
    let (s2, outcome) = or_literals(s1, disc, lits, 1, eq);
    let t = s2.live().guard(outcome, next);
    let code = t.statements.skip(n);
    let placeholder: StmtView<'a> = Instr::Op(Op::LivePlaceholder);
    let branch: StmtView<'a> = Instr::Op(Op::GotoIfNotIntIsTrue(outcome, next));
    assert(s2.rejected is None && t.statements =~= s2.statements.push(placeholder).push(branch)) by {
        reveal(LowerState::live);
        reveal(LowerState::guard);
        reveal(LowerState::branch);
        reveal(LowerState::push);
        reveal(LowerState::reject);
    }
    assert(s1.rejected is None && s1.statements.is_prefix_of(s2.statements)) by {
        grows_or_literals(s1, disc, lits, 1, eq);
        reveal(grows);
    }
    assert(s1 == load_and_compare(s0, disc, lits[0], c, eq)) by {
        reveal(test_literal);
    }
    assert(c <= 255 && eq <= 255) by {
        reveal(load_and_compare);
        reveal(LowerState::emit_op);
        reveal(LowerState::emit);
        reveal(LowerState::push);
        reveal(LowerState::reject);
        reveal_with_fuel(first_overflow, 3);
    }
    assert(eq == c + 1 && s0.next_reg == c + 2 && s0.statements == s.statements) by {
        reveal(LowerState::reg_taken);
    }
    lemma_compare(s0, n, regs, disc, lits[0], c, eq);
    assert(s0.statements.is_prefix_of(s1.statements)) by {
        reveal(load_and_compare);
        reveal(LowerState::emit_op);
        reveal(LowerState::emit);
        reveal(LowerState::push);
        reveal(LowerState::reject);
    }
    assert(added(s0, n) =~= seq![]);
    assert(lits.take(1).contains(regs(disc)) <==> lits[0] == regs(disc)) by {
        assert(lits.take(1)[0] == lits[0]);
    }
    assert(decides(s1, n, regs, disc, lits, 1, eq, s.next_reg));
    lemma_or_decides(s1, n, regs, disc, lits, 1, eq, s.next_reg);
    assert(lits.take(lits.len() as int) =~= lits);
    assert(code =~= added(s2, n).push(placeholder).push(branch));
    assert(code.drop_last() =~= added(s2, n).push(placeholder));
    lemma_one_more(added(s2, n), placeholder, regs);
}

// ── One arm ──────────────────────────────────────────────────────────

/// What the registers hold behind the test of an arm, from state `s` on.
spec fn tested_regs<'a>(
    s: LowerState<'a>,
    disc: u16,
    lits: Seq<i64>,
    next: Label,
    regs: Registers,
) -> Registers {
    let u = s.label_taken().aux(Op::NewLabel(next));
    behind_all(
        arm_test(u, disc, lits, next).statements.skip(u.statements.len() as int).drop_last(),
        regs,
    )
}

/// Whether the statements of a state, from the `n`th on, stand first in the code.
spec fn stands<'a>(s: LowerState<'a>, n: int, code: Seq<StmtView<'a>>) -> bool {
    &&& 0 <= n <= s.statements.len() <= n + code.len()
    &&& forall|x: int| n <= x < s.statements.len() ==> #[trigger] s.statements[x] == code[x - n]
}

/// The registers behind a move, where there is one.
pub open spec fn moved(regs: Registers, pair: Option<(u16, u16)>) -> Registers {
    match pair {
        Some((dst, src)) => with_register(regs, dst, regs(src)),
        None => regs,
    }
}

/// The statement of a move, where there is one.
spec fn move_code<'a>(pair: Option<(u16, u16)>) -> Seq<StmtView<'a>> {
    match pair {
        Some((dst, src)) => seq![Instr::Op(Op::MoveI(dst, src))],
        None => seq![],
    }
}

/// What follows the body of an arm with literals.
spec fn arm_tail<'a>(pair: Option<(u16, u16)>, end_label: Label, next: Label) -> Seq<StmtView<'a>> {
    move_code(pair) + seq![Instr::Op(Op::Jump(end_label)), Instr::Op(Op::MarkLabel(next))]
}

proof fn lemma_straight_run<'a>(
    code: Seq<StmtView<'a>>,
    p: int,
    part: Seq<StmtView<'a>>,
    regs: Registers,
    now: Registers,
    to: int,
)
    requires
        0 <= p,
        p + part.len() <= code.len(),
        forall|x: int|
            0 <= x < part.len() ==> falls_through(#[trigger] part[x]) && code[p + x] == part[x],
        reaches(code, behind_all(part, regs), p + part.len(), now, to),
    ensures
        reaches(code, regs, p, now, to),
    decreases part.len(),
{
    if part.len() > 0 {
        let before = part.drop_last();
        let r = behind_all(before, regs);
        let last = p + before.len();
        assert(part[part.len() - 1] == part.last());
        assert(code[p + (part.len() - 1)] == part.last());
        assert(step(code, r, last) == Some((behind(part.last(), r), last + 1)));
        lemma_step(code, r, last, behind(part.last(), r), last + 1, now, to);
        assert forall|x: int| 0 <= x < before.len() implies falls_through(#[trigger] before[x])
            && code[p + x] == before[x] by {
            assert(before[x] == part[x]);
        }
        lemma_straight_run(code, p, before, regs, now, to);
    }
}

/// An arm's test leads to its body where the discriminant is among its literals and
/// behind the arm where it is not; and its body leads to the end.
proof fn lemma_arm_runs<'a>(
    code: Seq<StmtView<'a>>,
    n: int,
    regs: Registers,
    s: LowerState<'a>,
    disc: u16,
    lits: Seq<i64>,
    body: Seq<StmtView<'a>>,
    pair: Option<(u16, u16)>,
    end_label: Label,
    s3: LowerState<'a>,
)
    requires
        0 <= n <= s.statements.len(),
        lits.len() > 0,
        disc < s.next_reg,
        ({
            let next = s.fresh_label();
            let v = arm_test(s.label_taken().aux(Op::NewLabel(next)), disc, lits, next);
            &&& v.rejected is None
            &&& s3.statements == v.statements + body + arm_tail(pair, end_label, next)
            &&& only_mark(code, s3.statements.len() - n - 1, next)
        }),
        stands(s3, n, code),
        only_mark(code, code.len() - 1, end_label),
    ensures
        ({
            let next = s.fresh_label();
            let v = arm_test(s.label_taken().aux(Op::NewLabel(next)), disc, lits, next);
            let now = tested_regs(s, disc, lits, next, regs);
            let at = v.statements.len() - n;
            &&& kept(regs, now, s.next_reg)
            &&& lits.contains(regs(disc)) ==> reaches(code, regs, s.statements.len() - n, now, at)
            &&& !lits.contains(regs(disc)) ==> reaches(
                code,
                regs,
                s.statements.len() - n,
                now,
                s3.statements.len() - n,
            )
            &&& body_at(code, at, body)
            &&& leads_out(code, at + body.len(), pair)
        }),
{
    let next = s.fresh_label();
    let u = s.label_taken().aux(Op::NewLabel(next));
    let v = arm_test(u, disc, lits, next);
    assert(u.statements =~= s.statements.push(Instr::Op(Op::NewLabel(next))) && u.next_reg
        == s.next_reg) by {
        reveal(LowerState::label_taken);
        reveal(LowerState::aux);
        reveal(LowerState::push);
    }
    law_arm_test_asks_for_its_literals(u, disc, lits, next, regs);
    let test = v.statements.skip(u.statements.len() as int);
    let front = test.drop_last();
    let now = behind_all(front, regs);
    let p = s.statements.len() - n;
    let at = v.statements.len() - n;
    let tail = arm_tail::<'a>(pair, end_label, next);
    assert forall|x: int| 0 <= x < v.statements.len() - n implies #[trigger] code[x]
        == v.statements[n + x] by {
        assert(s3.statements[n + x] == v.statements[n + x]);
        assert(s3.statements[n + x] == code[(n + x) - n]);
    }
    assert(code[p] == u.statements[n + p]);
    assert forall|x: int| 0 <= x < test.len() implies code[p + 1 + x] == #[trigger] test[x] by {
        assert(test[x] == v.statements[u.statements.len() + x]);
        assert(code[p + 1 + x] == v.statements[n + (p + 1 + x)]);
    }
    assert forall|x: int| 0 <= x < body.len() implies code[at + x] == #[trigger] body[x] by {
        assert(s3.statements[n + at + x] == body[x]);
        assert(s3.statements[n + at + x] == code[(n + at + x) - n]);
    }
    assert forall|x: int| 0 <= x < tail.len() implies code[at + body.len() + x]
        == #[trigger] tail[x] by {
        assert(s3.statements[n + at + body.len() + x] == tail[x]);
        assert(s3.statements[n + at + body.len() + x] == code[(n + at + body.len() + x) - n]);
    }
    let branch = at - 1;
    assert(code[p + 1 + (test.len() - 1)] == test.last());
    if lits.contains(regs(disc)) {
        lemma_stays(code, now, at);
        assert(step(code, now, branch) == Some((now, at)));
        lemma_step(code, now, branch, now, at, now, at);
        lemma_front(code, p, front, test, regs, now, at);
    } else {
        let q = s3.statements.len() - n - 1;
        lemma_stays(code, now, q + 1);
        assert(marked(code, q, next));
        assert(step(code, now, q) == Some((now, q + 1)));
        lemma_step(code, now, q, now, q + 1, now, q + 1);
        lemma_goes(code, now, branch, q, next, now, q + 1);
        lemma_front(code, p, front, test, regs, now, q + 1);
    }
    assert forall|r: Registers| #[trigger]
        reaches(code, r, at + body.len(), moved(r, pair), code.len() - 1) by {
        let from = at + body.len();
        let m = moved(r, pair);
        lemma_stays(code, m, code.len() - 1);
        match pair {
            Some((dst, src)) => {
                assert(code[from + 0] == tail[0]);
                assert(code[from + 1] == tail[1]);
                lemma_goes(code, m, from + 1, code.len() - 1, end_label, m, code.len() - 1);
                assert(step(code, r, from) == Some((m, from + 1)));
                lemma_step(code, r, from, m, from + 1, m, code.len() - 1);
            },
            None => {
                assert(code[from + 0] == tail[0]);
                lemma_goes(code, m, from, code.len() - 1, end_label, m, code.len() - 1);
            },
        }
    }
}

/// The statements before the branch of an arm's test run through.
proof fn lemma_front<'a>(
    code: Seq<StmtView<'a>>,
    p: int,
    front: Seq<StmtView<'a>>,
    test: Seq<StmtView<'a>>,
    regs: Registers,
    now: Registers,
    to: int,
)
    requires
        0 <= p,
        p + 1 + test.len() <= code.len(),
        test.len() > 0,
        front == test.drop_last(),
        code[p] matches Instr::Op(op) && op is NewLabel,
        forall|x: int| 0 <= x < test.len() ==> code[p + 1 + x] == #[trigger] test[x],
        forall|x: int| 0 <= x < test.len() - 1 ==> falls_through(#[trigger] test[x]),
        reaches(code, behind_all(front, regs), p + test.len(), now, to),
    ensures
        reaches(code, regs, p, now, to),
{
    assert forall|x: int| 0 <= x < front.len() implies falls_through(#[trigger] front[x]) && code[p
        + 1 + x] == front[x] by {
        assert(front[x] == test[x]);
    }
    lemma_straight_run(code, p + 1, front, regs, now, to);
    assert(step(code, regs, p) == Some((regs, p + 1)));
    lemma_step(code, regs, p, regs, p + 1, now, to);
}

// ── Where control goes ───────────────────────────────────────────────

/// Whether the statements of a body stand at `p`.
pub open spec fn body_at<'a>(code: Seq<StmtView<'a>>, p: int, body: Seq<StmtView<'a>>) -> bool {
    &&& 0 <= p
    &&& p + body.len() <= code.len()
    &&& forall|x: int| 0 <= x < body.len() ==> code[p + x] == #[trigger] body[x]
}

/// Whether control at `q` gets to the last statement, after the move that the pair
/// of registers says.
pub open spec fn leads_out<'a>(code: Seq<StmtView<'a>>, q: int, pair: Option<(u16, u16)>) -> bool {
    forall|r: Registers| #[trigger] reaches(code, r, q, moved(r, pair), code.len() - 1)
}

/// Whether control from `pc` on gets to a body, and behind that body out of the
/// code. Without a body, it gets out directly. On the way to the body the registers
/// below `floor` are unchanged.
pub open spec fn runs_body<'a>(
    code: Seq<StmtView<'a>>,
    regs: Registers,
    pc: int,
    floor: u16,
    body: Option<(Seq<StmtView<'a>>, Option<(u16, u16)>)>,
) -> bool {
    match body {
        Some((stmts, pair)) => exists|now: Registers, p: int| #[trigger]
            reaches(code, regs, pc, now, p) && kept(regs, now, floor) && body_at(code, p, stmts)
                && leads_out(code, p + stmts.len(), pair),
        None => exists|now: Registers| #[trigger]
            reaches(code, regs, pc, now, code.len() - 1) && kept(regs, now, floor),
    }
}

/// The first arm from the `i`th on with a literal that is `v`.
pub open spec fn literal_arm(arms: Seq<Arm>, i: int, v: i64) -> Option<int>
    decreases arms.len() - i,
{
    if 0 <= i < arms.len() {
        if !is_default_arm(arms[i]) && arm_literals(arms[i])->0.contains(v) {
            Some(i)
        } else {
            literal_arm(arms, i + 1, v)
        }
    } else {
        None
    }
}

/// The arm that a discriminant chooses among those from the `i`th on: the first with
/// that literal, or the last default arm of all.
pub open spec fn chosen_arm(arms: Seq<Arm>, i: int, v: i64) -> Option<int> {
    match literal_arm(arms, i, v) {
        Some(k) => Some(k),
        None => default_arm(arms, arms.len() as int),
    }
}

proof fn lemma_literal_arm(arms: Seq<Arm>, i: int, v: i64)
    requires
        0 <= i <= arms.len(),
    ensures
        literal_arm(arms, i, v) matches Some(k) ==> i <= k < arms.len() && !is_default_arm(arms[k]),
    decreases arms.len() - i,
{
    if i < arms.len() {
        lemma_literal_arm(arms, i + 1, v);
    }
}

proof fn lemma_default_arm(arms: Seq<Arm>, n: int)
    requires
        0 <= n <= arms.len(),
    ensures
        default_arm(arms, n) matches Some(d) ==> 0 <= d < n && is_default_arm(arms[d]),
    decreases n,
{
    if n > 0 {
        lemma_default_arm(arms, n - 1);
    }
}

proof fn lemma_lands<'a>(
    code: Seq<StmtView<'a>>,
    regs: Registers,
    pc: int,
    mid: Registers,
    at: int,
    floor: u16,
    body: Option<(Seq<StmtView<'a>>, Option<(u16, u16)>)>,
)
    requires
        reaches(code, regs, pc, mid, at),
        kept(regs, mid, floor),
        runs_body(code, mid, at, floor, body),
    ensures
        runs_body(code, regs, pc, floor, body),
{
    match body {
        Some((stmts, pair)) => {
            let (now, p) = choose|now: Registers, p: int| #[trigger]
                reaches(code, mid, at, now, p) && kept(mid, now, floor) && body_at(code, p, stmts)
                    && leads_out(code, p + stmts.len(), pair);
            lemma_reaches_further(code, regs, pc, mid, at, now, p);
            assert(kept(regs, now, floor)) by {
                assert forall|r: u16| r < floor implies #[trigger] now(r) == regs(r) by {
                    assert(mid(r) == regs(r));
                }
            }
        },
        None => {
            let now = choose|now: Registers| #[trigger]
                reaches(code, mid, at, now, code.len() - 1) && kept(mid, now, floor);
            lemma_reaches_further(code, regs, pc, mid, at, now, code.len() - 1);
            assert(kept(regs, now, floor)) by {
                assert forall|r: u16| r < floor implies #[trigger] now(r) == regs(r) by {
                    assert(mid(r) == regs(r));
                }
            }
        },
    }
}

/// The label behind an arm is defined once: what stands before it has smaller
/// labels, its body and what follows have larger ones.
proof fn lemma_next_only<'a>(
    code: Seq<StmtView<'a>>,
    n: int,
    a: LowerState<'a>,
    s: LowerState<'a>,
    disc: u16,
    lits: Seq<i64>,
    regs: Registers,
    w: LowerState<'a>,
    seq: Branch<'a>,
    pair: Option<(u16, u16)>,
    end_label: Label,
    s3: LowerState<'a>,
    t: LowerState<'a>,
)
    requires
        a.statements.len() == n,
        grows(a, s),
        lits.len() > 0,
        disc < s.next_reg,
        end_label.id < s.next_label,
        t.next_label < u16::MAX,
        ({
            let next = s.fresh_label();
            let v = arm_test(s.label_taken().aux(Op::NewLabel(next)), disc, lits, next);
            &&& v.rejected is None
            &&& grows(v, w)
            &&& branch_between(v, w, seq)
            &&& w.next_label <= s3.next_label
            &&& s3.statements == v.statements + seq.0 + arm_tail(pair, end_label, next)
        }),
        grows(s3, t),
        code == t.statements.skip(n).push(mark(end_label)),
    ensures
        stands(s3, n, code),
        only_mark(code, s3.statements.len() - n - 1, s.fresh_label()),
{
    broadcast use {grows_self, grows_further, grows_labels, grows_label_taken, grows_aux};

    let next = s.fresh_label();
    let u = s.label_taken().aux(Op::NewLabel(next));
    let v = arm_test(u, disc, lits, next);
    grows_arm_test(u, disc, lits, next);
    assert(u.statements =~= s.statements.push(Instr::Op(Op::NewLabel(next))) && u.next_reg
        == s.next_reg) by {
        reveal(LowerState::label_taken);
        reveal(LowerState::aux);
        reveal(LowerState::push);
    }
    law_arm_test_asks_for_its_literals(u, disc, lits, next, regs);
    let test = v.statements.skip(u.statements.len() as int);
    assert(grows(s.label_taken(), v));
    assert(s.next_label < v.next_label <= w.next_label <= t.next_label);
    reveal(grows);
    reveal(branch_between);
    assert(stands(s3, n, code)) by {
        assert forall|x: int| n <= x < s3.statements.len() implies #[trigger] s3.statements[x]
            == code[x - n] by {
            assert(t.statements[x] == s3.statements[x]);
        }
    }
    let q = s3.statements.len() - n - 1;
    let tail = arm_tail::<'a>(pair, end_label, next);
    assert(s3.statements[n + q] == tail[tail.len() - 1]);
    assert(marked(code, q, next));
    assert forall|x: int| #[trigger] marked(code, x, next) implies x == q by {
        if x < s.statements.len() - n {
            assert(s3.statements[n + x] == code[(n + x) - n]);
            assert(v.statements[n + x] == u.statements[n + x]);
            assert(s3.statements[n + x] == s.statements[n + x]);
            assert(marked(s.statements, n + x, next));
            assert(false);
        } else if x < v.statements.len() - n {
            assert(s3.statements[n + x] == code[(n + x) - n]);
            assert(s3.statements[n + x] == v.statements[n + x]);
            if x == s.statements.len() - n {
                assert(v.statements[n + x] == u.statements[n + x]);
            } else {
                let k = n + x - u.statements.len();
                assert(test[k] == v.statements[n + x]);
                if k == test.len() - 1 {
                    assert(test[k] == test.last());
                } else {
                    assert(no_mark(test[k]));
                }
            }
            assert(false);
        } else if x < v.statements.len() - n + seq.0.len() {
            assert(s3.statements[n + x] == code[(n + x) - n]);
            assert(s3.statements[n + x] == seq.0[n + x - v.statements.len()]);
            assert(marked(seq.0, n + x - v.statements.len(), next));
            assert(false);
        } else if x < s3.statements.len() - n {
            assert(s3.statements[n + x] == code[(n + x) - n]);
            let k = n + x - v.statements.len() - seq.0.len();
            assert(s3.statements[n + x] == tail[k]);
            assert(k == tail.len() - 1);
        } else if x < t.statements.len() - n {
            assert(code[x] == t.statements[n + x]);
            assert(marked(t.statements, n + x, next));
            assert(false);
        } else {
            assert(code[x] == mark::<'a>(end_label));
            assert(false);
        }
    }
}

/// The label behind the arms is defined once: every label of the arms is larger.
proof fn lemma_end_only<'a>(
    code: Seq<StmtView<'a>>,
    n: int,
    s: LowerState<'a>,
    end_label: Label,
    t: LowerState<'a>,
)
    requires
        0 <= n <= s.statements.len(),
        forall|x: int|
            n <= x < s.statements.len() ==> no_mark(#[trigger] s.statements[x]),
        end_label.id < s.next_label,
        grows(s, t),
        t.next_label < u16::MAX,
        code == t.statements.skip(n).push(mark(end_label)),
    ensures
        only_mark(code, code.len() - 1, end_label),
{
    reveal(grows);
    assert(marked(code, code.len() - 1, end_label));
    assert forall|x: int| #[trigger] marked(code, x, end_label) implies x == code.len() - 1 by {
        if x < code.len() - 1 {
            assert(code[x] == t.statements[n + x]);
            if n + x < s.statements.len() {
                assert(s.statements[n + x] == t.statements[n + x]);
            } else {
                assert(marked(t.statements, n + x, end_label));
            }
            assert(false);
        }
    }
}

// ── In statement position ────────────────────────────────────────────

/// The state behind an arm with literals, where its body was lowered to `seq` and
/// left the state `w`.
pub open spec fn behind_arm<'a>(
    w: LowerState<'a>,
    seq: Branch<'a>,
    end_label: Label,
    next: Label,
) -> LowerState<'a> {
    w.append(seq).jump(end_label).label_def(next)
}

/// What the body of the `k`th arm is lowered to, where the arms from the `i`th on
/// are lowered from state `s`.
pub open spec fn stmt_body<'a>(
    s: LowerState<'a>,
    arms: &'a Vec<Arm>,
    i: int,
    disc: u16,
    end_label: Label,
    k: int,
) -> Seq<StmtView<'a>>
    decreases arms.len() - i,
{
    if 0 <= i < arms.len() {
        if is_default_arm(arms[i]) {
            stmt_body(s, arms, i + 1, disc, end_label, k)
        } else {
            let next = s.fresh_label();
            let (w, r) = branch_expr(
                arm_test(
                    s.label_taken().aux(Op::NewLabel(next)),
                    disc,
                    arm_literals(arms[i])->0,
                    next,
                ),
                &*arms[i].body,
            );
            if i == k {
                (r->0).0
            } else {
                stmt_body(behind_arm(w, r->0, end_label, next), arms, i + 1, disc, end_label, k)
            }
        }
    } else {
        (branch_expr(s, &*arms[k].body).1->0).0
    }
}

proof fn lemma_stmt_arms_run<'a>(
    code: Seq<StmtView<'a>>,
    n: int,
    regs: Registers,
    floor: u16,
    a: LowerState<'a>,
    s: LowerState<'a>,
    arms: &'a Vec<Arm>,
    i: int,
    disc: u16,
    end_label: Label,
)
    requires
        0 <= i <= arms.len(),
        arms_testable(arms@),
        a.statements.len() == n,
        grows(a, s),
        disc < floor <= s.next_reg,
        end_label.id < s.next_label,
        match_stmt_arms(s, arms, i, disc, end_label).1,
        match_stmt_arms(s, arms, i, disc, end_label).0.rejected is None,
        match_stmt_arms(s, arms, i, disc, end_label).0.next_label < u16::MAX,
        code == match_stmt_arms(s, arms, i, disc, end_label).0.statements.skip(n).push(
            mark(end_label),
        ),
        only_mark(code, code.len() - 1, end_label),
    ensures
        runs_body(
            code,
            regs,
            s.statements.len() - n,
            floor,
            match chosen_arm(arms@, i, regs(disc)) {
                Some(k) => Some((stmt_body(s, arms, i, disc, end_label, k), None)),
                None => None,
            },
        ),
    decreases arms.len() - i,
{
    let t = match_stmt_arms(s, arms, i, disc, end_label).0;
    let v = regs(disc);
    lemma_literal_arm(arms@, i, v);
    lemma_default_arm(arms@, arms.len() as int);
    assert(n <= s.statements.len()) by {
        reveal(grows);
    }
    if i < arms.len() {
        lemma_literal_arm(arms@, i + 1, v);
        if is_default_arm(arms[i]) {
            lemma_stmt_arms_run(code, n, regs, floor, a, s, arms, i + 1, disc, end_label);
        } else {
            let lits = arm_literals(arms[i])->0;
            assert(is_default_arm(arms@[i]) || arm_literals(arms@[i]) is Some);
            let next = s.fresh_label();
            let u = s.label_taken().aux(Op::NewLabel(next));
            let x = arm_test(u, disc, lits, next);
            let (w, r) = branch_expr(x, &*arms[i].body);
            let seq = r->0;
            let s3 = behind_arm(w, seq, end_label, next);
            grows_branch_expr(x, &*arms[i].body);
            grows_match_stmt_arms(s3, arms, i + 1, disc, end_label);
            lemma_behind_stmt_arm(s, x, w, seq, end_label, s3, t, disc, lits, &arms[i]);
            lemma_next_only(code, n, a, s, disc, lits, regs, w, seq, None, end_label, s3, t);
            lemma_arm_runs(code, n, regs, s, disc, lits, seq.0, None, end_label, s3);
            let now = tested_regs(s, disc, lits, next, regs);
            let at = x.statements.len() - n;
            assert(kept(regs, now, floor));
            if lits.contains(v) {
                assert(reaches(code, regs, s.statements.len() - n, now, at));
            } else {
                assert(now(disc) == v);
                assert(grows(a, s3)) by {
                    broadcast use grows_further;

                }
                lemma_stmt_arms_run(code, n, now, floor, a, s3, arms, i + 1, disc, end_label);
                lemma_lands(
                    code,
                    regs,
                    s.statements.len() - n,
                    now,
                    s3.statements.len() - n,
                    floor,
                    match chosen_arm(arms@, i + 1, v) {
                        Some(k) => Some((stmt_body(s3, arms, i + 1, disc, end_label, k), None)),
                        None => None,
                    },
                );
            }
        }
    } else {
        let at = s.statements.len() - n;
        lemma_stays(code, regs, at);
        if let Some(d) = default_arm(arms@, arms.len() as int) {
            let (w, r) = branch_expr(s, &*arms[d].body);
            let seq = r->0;
            assert(w.statements == s.statements) by {
                lemma_branch_expr_statements(s, &*arms[d].body);
            }
            assert(t.statements == s.statements + seq.0) by {
                reveal(LowerState::append);
            }
            assert forall|x: int| 0 <= x < seq.0.len() implies code[at + x]
                == #[trigger] seq.0[x] by {
                assert(t.statements[n + at + x] == seq.0[x]);
            }
            assert forall|g: Registers| #[trigger]
                reaches(code, g, at + seq.0.len(), moved(g, None), code.len() - 1) by {
                lemma_stays(code, g, code.len() - 1);
            }
        }
    }
}

proof fn lemma_branch_expr_statements<'a>(s: LowerState<'a>, e: &'a Expr)
    ensures
        branch_expr(s, e).0.statements == s.statements,
        branch_expr(s, e).0.next_reg >= s.next_reg,
{
    reveal(LowerState::joined);
    reveal(LowerState::abandoned);
}

/// What an arm in statement position adds.
proof fn lemma_behind_stmt_arm<'a>(
    s: LowerState<'a>,
    x: LowerState<'a>,
    w: LowerState<'a>,
    seq: Branch<'a>,
    end_label: Label,
    s3: LowerState<'a>,
    t: LowerState<'a>,
    disc: u16,
    lits: Seq<i64>,
    arm: &'a Arm,
)
    requires
        x == arm_test(
            s.label_taken().aux(Op::NewLabel(s.fresh_label())),
            disc,
            lits,
            s.fresh_label(),
        ),
        branch_expr(x, &*arm.body) == (w, Some(seq)),
        grows(x, w),
        branch_between(x, w, seq),
        s3 == behind_arm(w, seq, end_label, s.fresh_label()),
        grows(s3, t),
        t.rejected is None,
        t.next_label < u16::MAX,
    ensures
        x.rejected is None,
        s3.statements == x.statements + seq.0 + arm_tail(None, end_label, s.fresh_label()),
        w.next_label <= s3.next_label,
        s.next_label <= s3.next_label,
        s.next_reg <= s3.next_reg,
        grows(s, s3),
{
    broadcast use {group_labels, grows_aux, grows_jump};

    let next = s.fresh_label();
    let u = s.label_taken().aux(Op::NewLabel(next));
    grows_arm_test(u, disc, lits, next);
    assert(grows(s, w));
    assert(grows(s, s3));
    lemma_branch_expr_statements(x, &*arm.body);
    assert(s3.statements =~= x.statements + seq.0 + arm_tail(None, end_label, next) && s3.rejected
        == w.rejected && s3.next_label == w.next_label) by {
        reveal(LowerState::append);
        reveal(LowerState::jump);
        reveal(LowerState::label_def);
        reveal(LowerState::push);
    }
    reveal(grows);
}

/// When a `match` in statement position runs, its tests lead to the body of the arm
/// that the discriminant chooses: that of the first arm with that literal, or that
/// of the last default arm. Behind the body control goes to the definition of the
/// end label, which stands last; without such an arm it goes there directly. On the
/// way to the body no register changes that was handed out before. This is of a
/// `match` that is not rejected and does not run out of labels, whose discriminant
/// is in such a register.
pub proof fn law_match_runs_the_chosen_arm<'a>(s: LowerState<'a>, e: &'a Expr, regs: Registers)
    requires
        e.kind is Match,
        match_stmt(s, e).1,
        match_stmt(s, e).0.rejected is None,
        match_stmt(s, e).0.next_label < u16::MAX,
        value(s, &*e.kind->Match_0.expr).1 matches Some(disc) && disc.reg < value(
            s,
            &*e.kind->Match_0.expr,
        ).0.next_reg,
    ensures
        ({
            let arms = &e.kind->Match_0.arms;
            let (s1, d) = value(s, &*e.kind->Match_0.expr);
            let disc = d->0.reg;
            let end_label = s1.fresh_label();
            let s2 = s1.label_taken().aux(Op::NewLabel(end_label));
            let code = match_stmt(s, e).0.statements.skip(s1.statements.len() as int);
            &&& marked(code, code.len() - 1, end_label)
            &&& runs_body(
                code,
                regs,
                0,
                s1.next_reg,
                match chosen_arm(arms@, 0, regs(disc)) {
                    Some(k) => Some((stmt_body(s2, arms, 0, disc, end_label, k), None)),
                    None => None,
                },
            )
        }),
{
    let arms = &e.kind->Match_0.arms;
    let (s1, d) = value(s, &*e.kind->Match_0.expr);
    let disc = d->0.reg;
    let end_label = s1.fresh_label();
    let s2 = s1.label_taken().aux(Op::NewLabel(end_label));
    let n = s1.statements.len() as int;
    let t = match_stmt_arms(s2, arms, 0, disc, end_label).0;
    let code = match_stmt(s, e).0.statements.skip(n);
    grows_match_stmt_arms(s2, arms, 0, disc, end_label);
    assert(t.rejected is None && t.next_label < u16::MAX && n <= t.statements.len() && code
        =~= t.statements.skip(n).push(mark(end_label))) by {
        reveal(LowerState::label_def);
        reveal(LowerState::push);
        reveal(LowerState::aux);
        reveal(LowerState::label_taken);
        reveal(grows);
    }
    lemma_start(s1, s2, end_label, t);
    lemma_end_only(code, n, s2, end_label, t);
    lemma_stmt_arms_run(code, n, regs, s1.next_reg, s1, s2, arms, 0, disc, end_label);
    assert(code[0] == t.statements[n] && t.statements[n] == s2.statements[n]) by {
        reveal(grows);
    }
    assert(step(code, regs, 0) == Some((regs, 1int)));
    lemma_stays(code, regs, 1);
    lemma_step(code, regs, 0, regs, 1, regs, 1);
    lemma_lands(
        code,
        regs,
        0,
        regs,
        1,
        s1.next_reg,
        match chosen_arm(arms@, 0, regs(disc)) {
            Some(k) => Some((stmt_body(s2, arms, 0, disc, end_label, k), None)),
            None => None,
        },
    );
}

/// The state in which the arms of a `match` in statement position are lowered.
proof fn lemma_start<'a>(s1: LowerState<'a>, s2: LowerState<'a>, end_label: Label, t: LowerState<'a>)
    requires
        end_label == s1.fresh_label(),
        s2 == s1.label_taken().aux(Op::NewLabel(end_label)),
        grows(s2, t),
        t.next_label < u16::MAX,
    ensures
        grows(s1, s2),
        end_label.id < s2.next_label,
        s2.next_reg == s1.next_reg,
        s2.statements == s1.statements.push(Instr::Op(Op::NewLabel(end_label))),
{
    broadcast use {grows_self, grows_further, grows_labels, grows_label_taken, grows_aux};

    assert(grows(s1.label_taken(), s2));
    reveal(LowerState::label_taken);
    reveal(LowerState::aux);
    reveal(LowerState::push);
}

// ── In value position ────────────────────────────────────────────────

/// The state behind an arm with literals, where its body was lowered to `seq` with
/// its value in `b` and left the state `w`.
pub open spec fn behind_value_arm<'a>(
    w: LowerState<'a>,
    seq: Branch<'a>,
    b: Binding,
    dst: u16,
    end_label: Label,
    next: Label,
) -> LowerState<'a> {
    move_int(w.append(seq), dst, b.reg).jump(end_label).label_def(next)
}

/// What the body of the `k`th arm is lowered to and where its value is, where the
/// arms from the `i`th on are lowered from state `s`.
pub open spec fn value_body<'a>(
    s: LowerState<'a>,
    arms: &'a Vec<Arm>,
    i: int,
    disc: u16,
    end_label: Label,
    dst: u16,
    k: int,
) -> (Seq<StmtView<'a>>, Binding)
    decreases arms.len() - i,
{
    if 0 <= i < arms.len() {
        if is_default_arm(arms[i]) {
            value_body(s, arms, i + 1, disc, end_label, dst, k)
        } else {
            let next = s.fresh_label();
            let (w, r) = branch_value(
                arm_test(
                    s.label_taken().aux(Op::NewLabel(next)),
                    disc,
                    arm_literals(arms[i])->0,
                    next,
                ),
                &*arms[i].body,
            );
            let (seq, b) = r->0;
            if i == k {
                (seq.0, b)
            } else {
                value_body(
                    behind_value_arm(w, seq, b, dst, end_label, next),
                    arms,
                    i + 1,
                    disc,
                    end_label,
                    dst,
                    k,
                )
            }
        }
    } else {
        let (seq, b) = branch_value(s, &*arms[k].body).1->0;
        (seq.0, b)
    }
}

/// What a chosen arm in value position runs: its body, and then the move of its value
/// to the destination.
pub open spec fn value_target<'a>(
    s: LowerState<'a>,
    arms: &'a Vec<Arm>,
    i: int,
    disc: u16,
    end_label: Label,
    dst: u16,
    v: i64,
) -> Option<(Seq<StmtView<'a>>, Option<(u16, u16)>)> {
    match chosen_arm(arms@, i, v) {
        Some(k) => {
            let (stmts, b) = value_body(s, arms, i, disc, end_label, dst, k);
            Some((stmts, Some((dst, b.reg))))
        },
        None => None,
    }
}

proof fn lemma_branch_value_statements<'a>(s: LowerState<'a>, e: &'a Expr)
    ensures
        branch_value(s, e).0.statements == s.statements,
        branch_value(s, e).0.next_reg >= s.next_reg,
{
    reveal(LowerState::joined);
    reveal(LowerState::abandoned);
}

proof fn lemma_move<'a>(s: LowerState<'a>, dst: u16, src: u16)
    requires
        move_int(s, dst, src).rejected is None,
    ensures
        s.rejected is None,
        move_int(s, dst, src).statements == s.statements.push(Instr::Op(Op::MoveI(dst, src))),
        move_int(s, dst, src).next_label == s.next_label,
{
    reveal(move_int);
    reveal(LowerState::emit_op);
    reveal(LowerState::emit);
    reveal(LowerState::push);
    reveal(LowerState::reject);
}

/// What an arm in value position adds.
proof fn lemma_behind_value_arm<'a>(
    s: LowerState<'a>,
    x: LowerState<'a>,
    w: LowerState<'a>,
    seq: Branch<'a>,
    b: Binding,
    dst: u16,
    end_label: Label,
    s3: LowerState<'a>,
    t: LowerState<'a>,
    disc: u16,
    lits: Seq<i64>,
    arm: &'a Arm,
)
    requires
        x == arm_test(
            s.label_taken().aux(Op::NewLabel(s.fresh_label())),
            disc,
            lits,
            s.fresh_label(),
        ),
        branch_value(x, &*arm.body) == (w, Some((seq, b))),
        grows(x, w),
        branch_between(x, w, seq),
        s3 == behind_value_arm(w, seq, b, dst, end_label, s.fresh_label()),
        grows(s3, t),
        t.rejected is None,
        t.next_label < u16::MAX,
    ensures
        x.rejected is None,
        s3.statements == x.statements + seq.0 + arm_tail(
            Some((dst, b.reg)),
            end_label,
            s.fresh_label(),
        ),
        w.next_label <= s3.next_label,
        s.next_label <= s3.next_label,
        s.next_reg <= s3.next_reg,
        grows(s, s3),
{
    broadcast use {group_labels, grows_aux, grows_jump, grows_move_int};

    let next = s.fresh_label();
    let u = s.label_taken().aux(Op::NewLabel(next));
    grows_arm_test(u, disc, lits, next);
    assert(grows(s, w));
    assert(grows(s, s3));
    lemma_branch_value_statements(x, &*arm.body);
    let y = w.append(seq);
    let z = move_int(y, dst, b.reg);
    assert(z.rejected is None) by {
        reveal(grows);
        reveal(LowerState::jump);
        reveal(LowerState::label_def);
        reveal(LowerState::push);
    }
    lemma_move(y, dst, b.reg);
    assert(s3.statements =~= x.statements + seq.0 + arm_tail(Some((dst, b.reg)), end_label, next)
        && y.rejected == w.rejected && s3.next_label == w.next_label) by {
        reveal(LowerState::append);
        reveal(LowerState::jump);
        reveal(LowerState::label_def);
        reveal(LowerState::push);
    }
    reveal(grows);
}

proof fn lemma_value_arms_run<'a>(
    code: Seq<StmtView<'a>>,
    n: int,
    regs: Registers,
    floor: u16,
    a: LowerState<'a>,
    s: LowerState<'a>,
    arms: &'a Vec<Arm>,
    i: int,
    disc: u16,
    end_label: Label,
    dst: u16,
    depends: bool,
)
    requires
        0 <= i <= arms.len(),
        arms_testable(arms@),
        a.statements.len() == n,
        grows(a, s),
        disc < floor <= s.next_reg,
        end_label.id < s.next_label,
        match_value_arms(s, arms, i, disc, end_label, dst, depends).1 is Some,
        match_value_arms(s, arms, i, disc, end_label, dst, depends).0.rejected is None,
        match_value_arms(s, arms, i, disc, end_label, dst, depends).0.next_label < u16::MAX,
        code == match_value_arms(
            s,
            arms,
            i,
            disc,
            end_label,
            dst,
            depends,
        ).0.statements.skip(n).push(mark(end_label)),
        only_mark(code, code.len() - 1, end_label),
    ensures
        runs_body(
            code,
            regs,
            s.statements.len() - n,
            floor,
            value_target(s, arms, i, disc, end_label, dst, regs(disc)),
        ),
    decreases arms.len() - i,
{
    let t = match_value_arms(s, arms, i, disc, end_label, dst, depends).0;
    let v = regs(disc);
    lemma_literal_arm(arms@, i, v);
    lemma_default_arm(arms@, arms.len() as int);
    assert(n <= s.statements.len()) by {
        reveal(grows);
    }
    if i < arms.len() {
        lemma_literal_arm(arms@, i + 1, v);
        if is_default_arm(arms[i]) {
            lemma_value_arms_run(
                code,
                n,
                regs,
                floor,
                a,
                s,
                arms,
                i + 1,
                disc,
                end_label,
                dst,
                depends,
            );
        } else {
            let lits = arm_literals(arms[i])->0;
            assert(is_default_arm(arms@[i]) || arm_literals(arms@[i]) is Some);
            let next = s.fresh_label();
            let u = s.label_taken().aux(Op::NewLabel(next));
            let x = arm_test(u, disc, lits, next);
            let (w, r) = branch_value(x, &*arms[i].body);
            let (seq, b) = r->0;
            let pair = Some((dst, b.reg));
            let s3 = behind_value_arm(w, seq, b, dst, end_label, next);
            let more = depends || b.depends_on_stack;
            grows_branch_value(x, &*arms[i].body);
            grows_match_value_arms(s3, arms, i + 1, disc, end_label, dst, more);
            lemma_behind_value_arm(
                s,
                x,
                w,
                seq,
                b,
                dst,
                end_label,
                s3,
                t,
                disc,
                lits,
                &arms[i],
            );
            lemma_next_only(code, n, a, s, disc, lits, regs, w, seq, pair, end_label, s3, t);
            lemma_arm_runs(code, n, regs, s, disc, lits, seq.0, pair, end_label, s3);
            let now = tested_regs(s, disc, lits, next, regs);
            let at = x.statements.len() - n;
            assert(kept(regs, now, floor));
            if lits.contains(v) {
                assert(reaches(code, regs, s.statements.len() - n, now, at));
            } else {
                assert(now(disc) == v);
                assert(grows(a, s3)) by {
                    broadcast use grows_further;

                }
                lemma_value_arms_run(
                    code,
                    n,
                    now,
                    floor,
                    a,
                    s3,
                    arms,
                    i + 1,
                    disc,
                    end_label,
                    dst,
                    more,
                );
                lemma_lands(
                    code,
                    regs,
                    s.statements.len() - n,
                    now,
                    s3.statements.len() - n,
                    floor,
                    value_target(s3, arms, i + 1, disc, end_label, dst, v),
                );
            }
        }
    } else {
        let at = s.statements.len() - n;
        lemma_stays(code, regs, at);
        if let Some(d) = default_arm(arms@, arms.len() as int) {
            let (w, r) = branch_value(s, &*arms[d].body);
            let (seq, b) = r->0;
            let y = w.append(seq);
            lemma_branch_value_statements(s, &*arms[d].body);
            lemma_move(y, dst, b.reg);
            assert(y.statements == s.statements + seq.0) by {
                reveal(LowerState::append);
            }
            assert forall|x: int| 0 <= x < seq.0.len() implies code[at + x]
                == #[trigger] seq.0[x] by {
                assert(t.statements[n + at + x] == seq.0[x]);
            }
            let from = at + seq.0.len();
            assert(code[from] == t.statements[n + from]);
            assert forall|g: Registers| #[trigger]
                reaches(code, g, from, moved(g, Some((dst, b.reg))), code.len() - 1) by {
                let m = moved(g, Some((dst, b.reg)));
                lemma_stays(code, m, code.len() - 1);
                assert(step(code, g, from) == Some((m, from + 1)));
                lemma_step(code, g, from, m, from + 1, m, code.len() - 1);
            }
        }
    }
}

/// When a `match` in value position runs, its tests lead to the body of the arm that
/// the discriminant chooses, as in statement position. Behind the body its value is
/// moved to the destination, which is the register of the `match`, and control goes
/// to the definition of the end label, which stands last.
pub proof fn law_match_has_the_value_of_the_chosen_arm<'a>(
    s: LowerState<'a>,
    e: &'a Expr,
    regs: Registers,
)
    requires
        e.kind is Match,
        match_value(s, e).1 is Some,
        match_value(s, e).0.rejected is None,
        match_value(s, e).0.next_label < u16::MAX,
        value(s, &*e.kind->Match_0.expr).1 matches Some(disc) && disc.reg < value(
            s,
            &*e.kind->Match_0.expr,
        ).0.next_reg,
    ensures
        ({
            let arms = &e.kind->Match_0.arms;
            let (s1, d) = value(s, &*e.kind->Match_0.expr);
            let disc = d->0.reg;
            let end_label = s1.fresh_label();
            let s2 = s1.label_taken().reg_taken().aux(Op::NewLabel(end_label));
            let (t, r) = match_value(s, e);
            let code = t.statements.skip(s1.statements.len() as int);
            &&& marked(code, code.len() - 1, end_label)
            &&& runs_body(
                code,
                regs,
                0,
                s1.next_reg,
                value_target(s2, arms, 0, disc, end_label, r->0.reg, regs(disc)),
            )
        }),
{
    let arms = &e.kind->Match_0.arms;
    let (s1, d) = value(s, &*e.kind->Match_0.expr);
    let disc = d->0.reg;
    let end_label = s1.fresh_label();
    let dst = s1.label_taken().next_reg;
    let s2 = s1.label_taken().reg_taken().aux(Op::NewLabel(end_label));
    let n = s1.statements.len() as int;
    let depends = d->0.depends_on_stack;
    let t = match_value_arms(s2, arms, 0, disc, end_label, dst, depends).0;
    let code = match_value(s, e).0.statements.skip(n);
    grows_match_value_arms(s2, arms, 0, disc, end_label, dst, depends);
    assert(match_value(s, e) == match_value_chain(s2, arms, d->0, end_label, dst));
    assert(t.rejected is None && t.next_label < u16::MAX && n <= t.statements.len() && code
        =~= t.statements.skip(n).push(mark(end_label))) by {
        reveal(LowerState::label_def);
        reveal(LowerState::push);
        reveal(LowerState::aux);
        reveal(LowerState::label_taken);
        reveal(LowerState::reg_taken);
        reveal(grows);
    }
    lemma_value_start(s1, s2, end_label, t);
    lemma_end_only(code, n, s2, end_label, t);
    lemma_value_arms_run(
        code,
        n,
        regs,
        s1.next_reg,
        s1,
        s2,
        arms,
        0,
        disc,
        end_label,
        dst,
        depends,
    );
    assert(code[0] == t.statements[n] && t.statements[n] == s2.statements[n]) by {
        reveal(grows);
    }
    assert(step(code, regs, 0) == Some((regs, 1int)));
    lemma_stays(code, regs, 1);
    lemma_step(code, regs, 0, regs, 1, regs, 1);
    lemma_lands(
        code,
        regs,
        0,
        regs,
        1,
        s1.next_reg,
        value_target(s2, arms, 0, disc, end_label, dst, regs(disc)),
    );
}

/// The state in which the arms of a `match` in value position are lowered.
proof fn lemma_value_start<'a>(
    s1: LowerState<'a>,
    s2: LowerState<'a>,
    end_label: Label,
    t: LowerState<'a>,
)
    requires
        end_label == s1.fresh_label(),
        s2 == s1.label_taken().reg_taken().aux(Op::NewLabel(end_label)),
        grows(s2, t),
        t.next_label < u16::MAX,
    ensures
        grows(s1, s2),
        end_label.id < s2.next_label,
        s1.next_reg <= s2.next_reg,
        s2.statements == s1.statements.push(Instr::Op(Op::NewLabel(end_label))),
{
    broadcast use {
        grows_self,
        grows_further,
        grows_labels,
        grows_label_taken,
        grows_reg_taken,
        grows_aux,
    };

    assert(grows(s1.label_taken(), s2));
    reveal(grows);
    reveal(LowerState::label_taken);
    reveal(LowerState::reg_taken);
    reveal(LowerState::aux);
    reveal(LowerState::push);
}

} // verus!
