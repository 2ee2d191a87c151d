//! What the chain of a dispatch does when it runs.

use vstd::prelude::*;

use crate::config::LowererConfig;
use crate::dispatch::{ClassifiedArm, dispatch_chain, opcode_register};
use crate::dispatch_code::{
    all_tests_code, arm_call, arm_code, arms_code, arms_labels, arms_regs, bodies_kept, chain_code,
    keeps_body, label, lemma_chain_code, test_labels, tested, tests_code, value_code,
};
use crate::extended_arg::Bindings;
use crate::growth::marked;
use crate::lowerer::LowerState;
use crate::ops::{Instr, Label, Op, PatValue, StmtView};

verus! {

// ── Running a chain ──────────────────────────────────────────────────

/// What the registers hold.
pub type Registers = spec_fn(u16) -> i64;

/// What the named constants of patterns are.
pub type Constants<'a> = spec_fn(PatValue<'a>) -> i64;

/// How the run of a chain ends.
pub enum Halt<'a> {
    /// An arm is called.
    Calls(StmtView<'a>),
    /// Control goes to a label that is not defined in the chain.
    Leaves(Label),
}

/// The integer that a value of a pattern is.
pub open spec fn value_of<'a>(v: PatValue<'a>, consts: Constants<'a>) -> i64 {
    match v {
        PatValue::Int(n) => n,
        _ => consts(v),
    }
}

pub open spec fn has_mark<'a>(code: Seq<StmtView<'a>>, l: Label) -> bool {
    exists|q: int| marked(code, q, l)
}

pub open spec fn with_register(regs: Registers, c: u16, v: i64) -> Registers {
    |r: u16|
        if r == c {
            v
        } else {
            regs(r)
        }
}

/// How the code ends that runs from `pc` on, if it ends in so many steps. A
/// constant is loaded into its register, a test goes to its label where the two
/// registers differ, and definitions of labels and live markers do nothing.
pub open spec fn halt_after<'a>(
    code: Seq<StmtView<'a>>,
    consts: Constants<'a>,
    regs: Registers,
    pc: int,
    steps: nat,
) -> Option<Halt<'a>>
    decreases steps,
{
    if steps == 0 || !(0 <= pc < code.len()) {
        None
    } else {
        let left = (steps - 1) as nat;
        match code[pc] {
            Instr::ArmCall { .. } => Some(Halt::Calls(code[pc])),
            Instr::Op(op) => match op {
                Op::LoadPatValue(c, v) => halt_after(
                    code,
                    consts,
                    with_register(regs, c, value_of(v, consts)),
                    pc + 1,
                    left,
                ),
                Op::GotoIfNotIntEq(a, b, l) => if regs(a) == regs(b) {
                    halt_after(code, consts, regs, pc + 1, left)
                } else if has_mark(code, l) {
                    halt_after(code, consts, regs, choose|q: int| marked(code, q, l), left)
                } else {
                    Some(Halt::Leaves(l))
                },
                Op::Jump(l) => if has_mark(code, l) {
                    halt_after(code, consts, regs, choose|q: int| marked(code, q, l), left)
                } else {
                    Some(Halt::Leaves(l))
                },
                Op::NewLabel(_) | Op::MarkLabel(_) | Op::LivePlaceholder => halt_after(
                    code,
                    consts,
                    regs,
                    pc + 1,
                    left,
                ),
                _ => None,
            },
            _ => None,
        }
    }
}

/// Whether the code that runs from `pc` on ends in `h`.
pub open spec fn halts<'a>(
    code: Seq<StmtView<'a>>,
    consts: Constants<'a>,
    regs: Registers,
    pc: int,
    h: Halt<'a>,
) -> bool {
    exists|steps: nat| #[trigger] halt_after(code, consts, regs, pc, steps) == Some(h)
}

// ── Which arm is meant ───────────────────────────────────────────────

/// Whether the opcode is one of the values from the `i`th on.
pub open spec fn among<'a>(values: Seq<PatValue<'a>>, i: int, consts: Constants<'a>, opcode: i64) -> bool {
    exists|x: int| i <= x < values.len() && #[trigger] value_of(values[x], consts) == opcode
}

/// The first arm from the `i`th on with a value that is the opcode.
pub open spec fn first_match<'a>(
    arms: &'a Vec<ClassifiedArm>,
    i: int,
    consts: Constants<'a>,
    opcode: i64,
) -> Option<int>
    decreases arms.len() - i,
{
    if 0 <= i < arms.len() {
        match tested(&arms[i]) {
            Some(values) => if among(values, 0, consts, opcode) {
                Some(i)
            } else {
                first_match(arms, i + 1, consts, opcode)
            },
            None => first_match(arms, i + 1, consts, opcode),
        }
    } else {
        None
    }
}


// ── Steps ────────────────────────────────────────────────────────────

/// Whether no label is defined twice.
spec fn unique<'a>(code: Seq<StmtView<'a>>) -> bool {
    forall|p: int, q: int, l: Label|
        #![trigger marked(code, p, l), marked(code, q, l)]
        marked(code, p, l) && marked(code, q, l) ==> p == q
}

/// Whether a part of the code stands at `p`.
spec fn part_at<'a>(code: Seq<StmtView<'a>>, p: int, part: Seq<StmtView<'a>>) -> bool {
    &&& 0 <= p
    &&& p + part.len() <= code.len()
    &&& forall|x: int| 0 <= x < part.len() ==> code[p + x] == #[trigger] part[x]
}

/// Whether the code ends in `h` from `p` on, whatever it loaded before.
spec fn always_halts<'a>(
    code: Seq<StmtView<'a>>,
    consts: Constants<'a>,
    opcode: u16,
    v: i64,
    p: int,
    h: Halt<'a>,
) -> bool {
    forall|regs: Registers| regs(opcode) == v ==> #[trigger] halts(code, consts, regs, p, h)
}

proof fn lemma_parts<'a>(
    code: Seq<StmtView<'a>>,
    p: int,
    a: Seq<StmtView<'a>>,
    b: Seq<StmtView<'a>>,
)
    requires
        part_at(code, p, a + b),
    ensures
        part_at(code, p, a),
        part_at(code, p + a.len(), b),
{
    let c = a + b;
    assert forall|x: int| 0 <= x < a.len() implies code[p + x] == #[trigger] a[x] by {
        assert(c[x] == a[x]);
    }
    assert forall|x: int| 0 <= x < b.len() implies code[p + a.len() + x] == #[trigger] b[x] by {
        assert(c[a.len() + x] == b[x]);
    }
}

proof fn lemma_next<'a>(
    code: Seq<StmtView<'a>>,
    consts: Constants<'a>,
    regs: Registers,
    p: int,
    h: Halt<'a>,
)
    requires
        0 <= p < code.len(),
        code[p] matches Instr::Op(op) && (op is NewLabel || op is MarkLabel
            || op is LivePlaceholder),
        halts(code, consts, regs, p + 1, h),
    ensures
        halts(code, consts, regs, p, h),
{
    let n = choose|n: nat| #[trigger] halt_after(code, consts, regs, p + 1, n) == Some(h);
    assert(halt_after(code, consts, regs, p, n + 1) == Some(h));
}

proof fn lemma_load<'a>(
    code: Seq<StmtView<'a>>,
    consts: Constants<'a>,
    regs: Registers,
    p: int,
    c: u16,
    v: PatValue<'a>,
    h: Halt<'a>,
)
    requires
        0 <= p < code.len(),
        code[p] matches Instr::Op(op) && op == Op::LoadPatValue(c, v),
        halts(code, consts, with_register(regs, c, value_of(v, consts)), p + 1, h),
    ensures
        halts(code, consts, regs, p, h),
{
    let after = with_register(regs, c, value_of(v, consts));
    let n = choose|n: nat| #[trigger] halt_after(code, consts, after, p + 1, n) == Some(h);
    assert(halt_after(code, consts, regs, p, n + 1) == Some(h));
}

proof fn lemma_equal<'a>(
    code: Seq<StmtView<'a>>,
    consts: Constants<'a>,
    regs: Registers,
    p: int,
    h: Halt<'a>,
)
    requires
        0 <= p < code.len(),
        code[p] matches Instr::Op(op) && op matches Op::GotoIfNotIntEq(a, b, _) && regs(a) == regs(
            b,
        ),
        halts(code, consts, regs, p + 1, h),
    ensures
        halts(code, consts, regs, p, h),
{
    let n = choose|n: nat| #[trigger] halt_after(code, consts, regs, p + 1, n) == Some(h);
    assert(halt_after(code, consts, regs, p, n + 1) == Some(h));
}

/// A jump, or a test of registers that differ, goes to its label.
proof fn lemma_goto<'a>(
    code: Seq<StmtView<'a>>,
    consts: Constants<'a>,
    regs: Registers,
    p: int,
    q: int,
    l: Label,
    h: Halt<'a>,
)
    requires
        0 <= p < code.len(),
        code[p] matches Instr::Op(op) && match op {
            Op::Jump(to) => to == l,
            Op::GotoIfNotIntEq(a, b, to) => to == l && regs(a) != regs(b),
            _ => false,
        },
        unique(code),
        marked(code, q, l),
        halts(code, consts, regs, q, h),
    ensures
        halts(code, consts, regs, p, h),
{
    let n = choose|n: nat| #[trigger] halt_after(code, consts, regs, q, n) == Some(h);
    let target = choose|x: int| marked(code, x, l);
    assert(marked(code, target, l));
    assert(target == q);
    assert(halt_after(code, consts, regs, p, n + 1) == Some(h));
}

// ── Tests ────────────────────────────────────────────────────────────

/// Several tests go to `pm` where the opcode is among their values, and to `ps`
/// where it is not.
proof fn lemma_tests_run<'a>(
    code: Seq<StmtView<'a>>,
    consts: Constants<'a>,
    regs: Registers,
    p: int,
    values: Seq<PatValue<'a>>,
    i: int,
    c: int,
    l: int,
    opcode: u16,
    skip: Label,
    m: Label,
    ps: int,
    pm: int,
    h: Halt<'a>,
)
    requires
        unique(code),
        0 <= i < values.len(),
        part_at(code, p, tests_code(values, i, c, l, opcode, skip, Some(m))),
        opcode < c,
        c + values.len() - i <= 256,
        marked(code, ps, skip),
        marked(code, pm, m),
        always_halts(
            code,
            consts,
            opcode,
            regs(opcode),
            if among(values, i, consts, regs(opcode)) {
                pm
            } else {
                ps
            },
            h,
        ),
    ensures
        halts(code, consts, regs, p, h),
    decreases values.len() - i,
{
    let v = regs(opcode);
    let last = i + 1 == values.len();
    let miss = if last {
        skip
    } else {
        label(l)
    };
    let cr = c as u16;
    let n = value_of(values[i], consts);
    let after = with_register(regs, cr, n);
    let first = value_code(values[i], last, cr, opcode, miss, Some(m));
    let rest = tests_code(values, i + 1, c + 1, l + 1, opcode, skip, Some(m));
    lemma_parts(code, p, first, rest);
    assert(after(opcode) == v && after(cr) == n);
    assert(code[p + 0] == first[0]);
    assert(code[p + 1] == first[1]);
    assert(code[p + 2] == first[2]);
    let test = if last {
        p + 1
    } else {
        p + 2
    };
    if n == v {
        assert(among(values, i, consts, v));
        if !last {
            assert(code[p + 3] == first[3]);
        }
        assert(halts(code, consts, after, pm, h));
        lemma_goto(code, consts, after, test + 1, pm, m, h);
        lemma_equal(code, consts, after, test, h);
    } else {
        if last {
            assert(!among(values, i, consts, v));
            assert(halts(code, consts, after, ps, h));
            lemma_goto(code, consts, after, test, ps, skip, h);
        } else {
            assert(among(values, i, consts, v) == among(values, i + 1, consts, v)) by {
                if among(values, i, consts, v) {
                    let x = choose|x: int|
                        i <= x < values.len() && #[trigger] value_of(values[x], consts) == v;
                    assert(i + 1 <= x);
                }
            }
            assert(code[p + 4] == first[4]);
            lemma_tests_run(
                code,
                consts,
                after,
                p + 5,
                values,
                i + 1,
                c + 1,
                l + 1,
                opcode,
                skip,
                m,
                ps,
                pm,
                h,
            );
            lemma_next(code, consts, after, p + 4, h);
            assert(marked(code, p + 4, miss));
            lemma_goto(code, consts, after, test, p + 4, miss, h);
        }
    }
    if !last {
        lemma_next(code, consts, after, p + 1, h);
    }
    lemma_load(code, consts, regs, p, cr, values[i], h);
}

/// An arm is called where the opcode is among its values; otherwise control goes
/// behind it.
proof fn lemma_arm_runs<'a>(
    code: Seq<StmtView<'a>>,
    consts: Constants<'a>,
    regs: Registers,
    p: int,
    values: Seq<PatValue<'a>>,
    call: StmtView<'a>,
    c: int,
    l: int,
    opcode: u16,
    start: Label,
    h: Halt<'a>,
)
    requires
        unique(code),
        values.len() > 0,
        part_at(code, p, arm_code(values, call, c, l, opcode, start)),
        call is ArmCall,
        opcode < c,
        c + values.len() <= 256,
        if among(values, 0, consts, regs(opcode)) {
            h == Halt::Calls(call)
        } else {
            always_halts(
                code,
                consts,
                opcode,
                regs(opcode),
                p + arm_code(values, call, c, l, opcode, start).len(),
                h,
            )
        },
    ensures
        halts(code, consts, regs, p, h),
{
    let v = regs(opcode);
    let skip = label(l);
    let head: Seq<StmtView<'a>> = seq![Instr::Op(Op::NewLabel(skip))];
    let tests = all_tests_code(values, c, l, opcode);
    let tail = seq![
        call,
        Instr::Op(Op::LivePlaceholder),
        Instr::Op(Op::Jump(start)),
        Instr::Op(Op::MarkLabel(skip)),
    ];
    lemma_parts(code, p, head + tests, tail);
    lemma_parts(code, p, head, tests);
    let at = p + 1 + tests.len();
    assert(code[p + 0] == head[0]);
    assert(code[at + 0] == tail[0]);
    assert(code[at + 3] == tail[3]);
    let ps = at + 3;
    assert(marked(code, ps, skip));
    let hit = among(values, 0, consts, v);
    if hit {
        assert forall|r: Registers| r(opcode) == v implies #[trigger] halts(
            code,
            consts,
            r,
            at,
            h,
        ) by {
            assert(halt_after(code, consts, r, at, 1) == Some(h));
        }
        assert(always_halts(code, consts, opcode, v, at, h));
    } else {
        assert forall|r: Registers| r(opcode) == v implies #[trigger] halts(
            code,
            consts,
            r,
            ps,
            h,
        ) by {
            assert(halts(code, consts, r, ps + 1, h));
            lemma_next(code, consts, r, ps, h);
        }
        assert(always_halts(code, consts, opcode, v, ps, h));
    }
    if values.len() > 1 {
        let m = label(l + 1);
        let first: Seq<StmtView<'a>> = seq![Instr::Op(Op::NewLabel(m))];
        let inner = tests_code(values, 0, c, l + 2, opcode, skip, Some(m));
        let end: Seq<StmtView<'a>> = seq![Instr::Op(Op::MarkLabel(m))];
        lemma_parts(code, p + 1, first + inner, end);
        lemma_parts(code, p + 1, first, inner);
        let pm = p + 2 + inner.len();
        assert(code[p + 1 + 0] == first[0]);
        assert(code[pm + 0] == end[0]);
        assert(marked(code, pm, m));
        assert(pm + 1 == at);
        if hit {
            assert forall|r: Registers| r(opcode) == v implies #[trigger] halts(
                code,
                consts,
                r,
                pm,
                h,
            ) by {
                assert(halts(code, consts, r, at, h));
                lemma_next(code, consts, r, pm, h);
            }
            assert(always_halts(code, consts, opcode, v, pm, h));
        }
        lemma_tests_run(
            code,
            consts,
            regs,
            p + 2,
            values,
            0,
            c,
            l + 2,
            opcode,
            skip,
            m,
            ps,
            pm,
            h,
        );
        lemma_next(code, consts, regs, p + 1, h);
    } else {
        let cr = c as u16;
        let n = value_of(values[0], consts);
        let after = with_register(regs, cr, n);
        let inner = value_code(values[0], true, cr, opcode, skip, None);
        assert(tests_code(values, 1, c + 1, l + 2, opcode, skip, None) =~= seq![]);
        assert(tests =~= inner);
        assert(code[p + 1 + 0] == tests[0]);
        assert(code[p + 1 + 1] == tests[1]);
        assert(after(opcode) == v && after(cr) == n);
        if n == v {
            assert(hit);
            assert(halts(code, consts, after, at, h));
            lemma_equal(code, consts, after, p + 2, h);
        } else {
            assert(!hit);
            assert(halts(code, consts, after, ps, h));
            lemma_goto(code, consts, after, p + 2, ps, skip, h);
        }
        lemma_load(code, consts, regs, p + 1, cr, values[0], h);
    }
    lemma_next(code, consts, regs, p, h);
}

// ── Labels ───────────────────────────────────────────────────────────

/// Whether the labels that the code defines are in a range.
spec fn spans<'a>(code: Seq<StmtView<'a>>, lo: int, hi: int) -> bool {
    forall|q: int, l: Label| #[trigger] marked(code, q, l) ==> lo <= l.id < hi
}

proof fn lemma_marks_join<'a>(
    a: Seq<StmtView<'a>>,
    b: Seq<StmtView<'a>>,
    la: int,
    ha: int,
    lb: int,
    hb: int,
)
    requires
        unique(a),
        unique(b),
        spans(a, la, ha),
        spans(b, lb, hb),
        ha <= lb || hb <= la,
    ensures
        unique(a + b),
        forall|lo: int, hi: int|
            lo <= la && lo <= lb && ha <= hi && hb <= hi ==> #[trigger] spans(a + b, lo, hi),
{
    let c = a + b;
    assert forall|q: int, l: Label| #[trigger] marked(c, q, l) implies marked(a, q, l) || marked(
        b,
        q - a.len(),
        l,
    ) by {
        if q < a.len() {
            assert(c[q] == a[q]);
        } else {
            assert(c[q] == b[q - a.len()]);
        }
    }
    assert forall|p: int, q: int, l: Label|
        #![trigger marked(c, p, l), marked(c, q, l)]
        marked(c, p, l) && marked(c, q, l) implies p == q by {
        if marked(a, p, l) && marked(a, q, l) {
        } else if marked(b, p - a.len(), l) && marked(b, q - a.len(), l) {
        }
    }
}

proof fn lemma_tests_marks<'a>(
    values: Seq<PatValue<'a>>,
    i: int,
    c: int,
    l: int,
    opcode: u16,
    skip: Label,
    matched: Option<Label>,
)
    requires
        0 <= i <= values.len(),
        0 <= l,
        l + values.len() - i <= u16::MAX + 1,
        matched is None ==> values.len() <= 1,
    ensures
        unique(tests_code(values, i, c, l, opcode, skip, matched)),
        spans(
            tests_code(values, i, c, l, opcode, skip, matched),
            l,
            if i < values.len() {
                l + values.len() - i - 1
            } else {
                l
            },
        ),
    decreases values.len() - i,
{
    if i < values.len() {
        let last = i + 1 == values.len();
        let miss = if last {
            skip
        } else {
            label(l)
        };
        let first = value_code(values[i], last, c as u16, opcode, miss, matched);
        let rest = tests_code(values, i + 1, c + 1, l + 1, opcode, skip, matched);
        lemma_tests_marks(values, i + 1, c + 1, l + 1, opcode, skip, matched);
        if last {
            assert(spans(first, l, l));
            assert(rest =~= seq![]);
            assert(first + rest =~= first);
        } else {
            assert(spans(first, l, l + 1));
            lemma_marks_join(
                first,
                rest,
                l,
                l + 1,
                l + 1,
                l + 1 + values.len() - (i + 1) - 1,
            );
        }
    }
}

proof fn lemma_arm_marks<'a>(
    values: Seq<PatValue<'a>>,
    call: StmtView<'a>,
    c: int,
    l: int,
    opcode: u16,
    start: Label,
)
    requires
        0 <= l,
        l + 1 + test_labels(values) <= u16::MAX,
        call is ArmCall,
    ensures
        unique(arm_code(values, call, c, l, opcode, start)),
        spans(arm_code(values, call, c, l, opcode, start), l, l + 1 + test_labels(values)),
{
    let skip = label(l);
    let all = arm_code(values, call, c, l, opcode, start);
    if values.len() > 1 {
        let m = label(l + 1);
        let head: Seq<StmtView<'a>> = seq![Instr::Op(Op::NewLabel(skip)), Instr::Op(Op::NewLabel(m))];
        let inner = tests_code(values, 0, c, l + 2, opcode, skip, Some(m));
        let tail: Seq<StmtView<'a>> = seq![
            Instr::Op(Op::MarkLabel(m)),
            call,
            Instr::Op(Op::LivePlaceholder),
            Instr::Op(Op::Jump(start)),
            Instr::Op(Op::MarkLabel(skip)),
        ];
        lemma_tests_marks(values, 0, c, l + 2, opcode, skip, Some(m));
        let hi = l + 1 + values.len();
        assert(spans(head, l + 2, l + 2));
        lemma_marks_join(head, inner, l + 2, l + 2, l + 2, hi);
        assert(spans(head + inner, l + 2, hi));
        assert(spans(tail, l, l + 2));
        lemma_marks_join(head + inner, tail, l + 2, hi, l, l + 2);
        assert(all =~= head + inner + tail);
        assert(spans(head + inner + tail, l, hi));
    } else {
        let head: Seq<StmtView<'a>> = seq![Instr::Op(Op::NewLabel(skip))];
        let inner = tests_code(values, 0, c, l + 1, opcode, skip, None);
        let tail: Seq<StmtView<'a>> = seq![
            call,
            Instr::Op(Op::LivePlaceholder),
            Instr::Op(Op::Jump(start)),
            Instr::Op(Op::MarkLabel(skip)),
        ];
        if values.len() == 0 {
            assert(inner =~= seq![]);
        } else {
            assert(tests_code(values, 1, c + 1, l + 2, opcode, skip, None) =~= seq![]);
            assert(inner =~= value_code(values[0], true, c as u16, opcode, skip, None));
        }
        assert(spans(head, l + 1, l + 1));
        assert(spans(inner, l + 1, l + 1));
        lemma_marks_join(head, inner, l + 1, l + 1, l + 1, l + 1);
        assert(spans(head + inner, l + 1, l + 1));
        assert(spans(tail, l, l + 1));
        lemma_marks_join(head + inner, tail, l + 1, l + 1, l, l + 1);
        assert(all =~= head + inner + tail);
        assert(spans(head + inner + tail, l, l + 1));
    }
}

proof fn lemma_arms_marks<'a>(
    bindings: Bindings,
    arms: &'a Vec<ClassifiedArm>,
    i: int,
    config: &'a LowererConfig,
    start: Label,
    opcode: u16,
    c: int,
    l: int,
    bodies: nat,
)
    requires
        0 <= i <= arms.len(),
        0 <= l,
        l + arms_labels(arms, i) <= u16::MAX,
    ensures
        arms_labels(arms, i) >= 0,
        unique(arms_code(bindings, arms, i, config, start, opcode, c, l, bodies)),
        spans(
            arms_code(bindings, arms, i, config, start, opcode, c, l, bodies),
            l,
            l + arms_labels(arms, i),
        ),
    decreases arms.len() - i,
{
    if i < arms.len() {
        lemma_labels_taken(arms, i + 1);
        match tested(&arms[i]) {
            Some(values) => {
                let call = arm_call(bindings, bodies, &arms[i], config);
                let first = arm_code(values, call, c, l, opcode, start);
                let next = l + 1 + test_labels(values);
                let kept = bodies + if keeps_body(bindings, &arms[i], config) {
                    1nat
                } else {
                    0
                };
                let rest = arms_code(
                    bindings,
                    arms,
                    i + 1,
                    config,
                    start,
                    opcode,
                    c + values.len(),
                    next,
                    kept,
                );
                lemma_arm_marks(values, call, c, l, opcode, start);
                lemma_arms_marks(
                    bindings,
                    arms,
                    i + 1,
                    config,
                    start,
                    opcode,
                    c + values.len(),
                    next,
                    kept,
                );
                lemma_marks_join(first, rest, l, next, next, next + arms_labels(arms, i + 1));
                assert(spans(first + rest, l, l + arms_labels(arms, i)));
            },
            None => {
                lemma_arms_marks(bindings, arms, i + 1, config, start, opcode, c, l, bodies);
            },
        }
    }
}

proof fn lemma_labels_taken<'a>(arms: &'a Vec<ClassifiedArm>, i: int)
    ensures
        arms_labels(arms, i) >= 0,
        arms_regs(arms, i) >= 0,
    decreases arms.len() - i,
{
    if 0 <= i < arms.len() {
        lemma_labels_taken(arms, i + 1);
    }
}

// ── The chain ────────────────────────────────────────────────────────

/// How a chain ends where the opcode register holds `v`: the first arm with a value
/// equal to `v` is called; without one, control goes to the default label.
pub open spec fn chain_halt<'a>(
    bindings: Bindings,
    arms: &'a Vec<ClassifiedArm>,
    i: int,
    config: &'a LowererConfig,
    bodies: nat,
    consts: Constants<'a>,
    v: i64,
    default_label: Label,
) -> Halt<'a> {
    match first_match(arms, i, consts, v) {
        Some(k) => Halt::Calls(
            arm_call(
                bindings,
                bodies + bodies_kept(bindings, arms, i, k, config),
                &arms[k],
                config,
            ),
        ),
        None => Halt::Leaves(default_label),
    }
}

proof fn lemma_first_match<'a>(
    arms: &'a Vec<ClassifiedArm>,
    i: int,
    consts: Constants<'a>,
    v: i64,
)
    requires
        0 <= i <= arms.len(),
    ensures
        first_match(arms, i, consts, v) matches Some(k) ==> i <= k < arms.len(),
    decreases arms.len() - i,
{
    if i < arms.len() {
        lemma_first_match(arms, i + 1, consts, v);
    }
}

/// The chain from the `i`th arm on ends as the chain behind it does, unless the
/// arm has the opcode among its values.
proof fn lemma_chain_halt<'a>(
    bindings: Bindings,
    arms: &'a Vec<ClassifiedArm>,
    i: int,
    config: &'a LowererConfig,
    bodies: nat,
    consts: Constants<'a>,
    v: i64,
    default_label: Label,
)
    requires
        0 <= i < arms.len(),
    ensures
        chain_halt(bindings, arms, i, config, bodies, consts, v, default_label) == match tested(
            &arms[i],
        ) {
            Some(values) => if among(values, 0, consts, v) {
                Halt::Calls(arm_call(bindings, bodies, &arms[i], config))
            } else {
                chain_halt(
                    bindings,
                    arms,
                    i + 1,
                    config,
                    bodies + if keeps_body(bindings, &arms[i], config) {
                        1nat
                    } else {
                        0
                    },
                    consts,
                    v,
                    default_label,
                )
            },
            None => chain_halt(bindings, arms, i + 1, config, bodies, consts, v, default_label),
        },
{
    lemma_first_match(arms, i + 1, consts, v);
    assert(bodies_kept(bindings, arms, i, i, config) == 0);
}

proof fn lemma_arms_run<'a>(
    code: Seq<StmtView<'a>>,
    consts: Constants<'a>,
    regs: Registers,
    p: int,
    bindings: Bindings,
    arms: &'a Vec<ClassifiedArm>,
    i: int,
    config: &'a LowererConfig,
    start: Label,
    opcode: u16,
    c: int,
    l: int,
    bodies: nat,
    default_label: Label,
)
    requires
        unique(code),
        0 <= i <= arms.len(),
        forall|k: int|
            0 <= k < arms.len() ==> (tested(#[trigger] &arms[k]) matches Some(values) ==> values.len()
                > 0),
        part_at(
            code,
            p,
            arms_code(bindings, arms, i, config, start, opcode, c, l, bodies) + seq![
                Instr::Op(Op::Jump(default_label)),
            ],
        ),
        !has_mark(code, default_label),
        opcode < c,
        arms_regs(arms, i) > 0 ==> c + arms_regs(arms, i) <= 256,
    ensures
        halts(
            code,
            consts,
            regs,
            p,
            chain_halt(bindings, arms, i, config, bodies, consts, regs(opcode), default_label),
        ),
    decreases arms.len() - i,
{
    let v = regs(opcode);
    let h = chain_halt(bindings, arms, i, config, bodies, consts, v, default_label);
    let whole = arms_code(bindings, arms, i, config, start, opcode, c, l, bodies);
    let end: Seq<StmtView<'a>> = seq![Instr::Op(Op::Jump(default_label))];
    if i < arms.len() {
        lemma_labels_taken(arms, i + 1);
        lemma_chain_halt(bindings, arms, i, config, bodies, consts, v, default_label);
        match tested(&arms[i]) {
            Some(values) => {
                let call = arm_call(bindings, bodies, &arms[i], config);
                let first = arm_code(values, call, c, l, opcode, start);
                let next = l + 1 + test_labels(values);
                let kept = bodies + if keeps_body(bindings, &arms[i], config) {
                    1nat
                } else {
                    0
                };
                let rest = arms_code(
                    bindings,
                    arms,
                    i + 1,
                    config,
                    start,
                    opcode,
                    c + values.len(),
                    next,
                    kept,
                );
                assert(whole + end =~= first + (rest + end));
                lemma_parts(code, p, first, rest + end);
                if !among(values, 0, consts, v) {
                    assert forall|r: Registers| r(opcode) == v implies #[trigger] halts(
                        code,
                        consts,
                        r,
                        p + first.len(),
                        h,
                    ) by {
                        lemma_arms_run(
                            code,
                            consts,
                            r,
                            p + first.len(),
                            bindings,
                            arms,
                            i + 1,
                            config,
                            start,
                            opcode,
                            c + values.len(),
                            next,
                            kept,
                            default_label,
                        );
                    }
                    assert(always_halts(code, consts, opcode, v, p + first.len(), h));
                }
                lemma_arm_runs(
                    code,
                    consts,
                    regs,
                    p,
                    values,
                    call,
                    c,
                    l,
                    opcode,
                    start,
                    h,
                );
            },
            None => {
                lemma_arms_run(
                    code,
                    consts,
                    regs,
                    p,
                    bindings,
                    arms,
                    i + 1,
                    config,
                    start,
                    opcode,
                    c,
                    l,
                    bodies,
                    default_label,
                );
            },
        }
    } else {
        assert(whole =~= seq![]);
        lemma_parts(code, p, whole, end);
        assert(code[p + 0] == end[0]);
        assert(halt_after(code, consts, regs, p, 1) == Some(h));
    }
}

/// The code that a dispatch chain adds, when it runs, calls the first arm that has a
/// constant equal to the opcode, and otherwise goes to the default label. This is
/// of chains that are not rejected and do not run out of labels, whose alternatives
/// are not empty, and whose opcode is in a register that was handed out before.
pub proof fn law_first_matching_arm_is_called<'a>(
    s: LowerState<'a>,
    arms: &'a Vec<ClassifiedArm>,
    config: &'a LowererConfig,
    start: Label,
    opcode: u16,
    consts: Constants<'a>,
    regs: Registers,
)
    requires
        opcode_register(s) == Some(opcode),
        opcode < s.next_reg,
        dispatch_chain(s, arms, config, start).rejected is None,
        dispatch_chain(s, arms, config, start).next_label < u16::MAX,
        forall|k: int|
            0 <= k < arms.len() ==> (tested(#[trigger] &arms[k]) matches Some(values) ==> values.len()
                > 0),
    ensures
        s.statements.is_prefix_of(dispatch_chain(s, arms, config, start).statements),
        halts(
            dispatch_chain(s, arms, config, start).statements.skip(s.statements.len() as int),
            consts,
            regs,
            0,
            chain_halt(
                s.bindings,
                arms,
                0,
                config,
                s.arm_bodies.len(),
                consts,
                regs(opcode),
                s.fresh_label(),
            ),
        ),
{
    lemma_chain_code(s, arms, config, start, opcode);
    let code = chain_code(s, arms, config, start, opcode);
    let t = dispatch_chain(s, arms, config, start);
    assert(t.statements.skip(s.statements.len() as int) =~= code);
    let default_label = s.fresh_label();
    let head: Seq<StmtView<'a>> = seq![Instr::Op(Op::NewLabel(default_label))];
    let end: Seq<StmtView<'a>> = seq![Instr::Op(Op::Jump(default_label))];
    let c = s.next_reg as int;
    let l = s.next_label + 1;
    let middle = arms_code(
        s.bindings,
        arms,
        0,
        config,
        start,
        opcode,
        c,
        l,
        s.arm_bodies.len(),
    );
    let hi = l + arms_labels(arms, 0);
    lemma_labels_taken(arms, 0);
    lemma_arms_marks(s.bindings, arms, 0, config, start, opcode, c, l, s.arm_bodies.len());
    assert(spans(head, l, l));
    lemma_marks_join(head, middle, l, l, l, hi);
    assert(spans(head + middle, l, hi));
    assert(spans(end, hi, hi));
    lemma_marks_join(head + middle, end, l, hi, hi, hi);
    assert(spans(head + middle + end, l, hi));
    assert(code =~= head + middle + end);
    assert(!has_mark(code, default_label));
    assert(code =~= head + (middle + end));
    assert(part_at(code, 0, head + (middle + end)));
    lemma_parts(code, 0, head, middle + end);
    lemma_arms_run(
        code,
        consts,
        regs,
        1,
        s.bindings,
        arms,
        0,
        config,
        start,
        opcode,
        c,
        l,
        s.arm_bodies.len(),
        default_label,
    );
    assert(code[0] == head[0]);
    lemma_next(
        code,
        consts,
        regs,
        0,
        chain_halt(
            s.bindings,
            arms,
            0,
            config,
            s.arm_bodies.len(),
            consts,
            regs(opcode),
            default_label,
        ),
    );
}

} // verus!
