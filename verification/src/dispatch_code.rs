//! The statements that the chain of a dispatch consists of.

use vstd::prelude::*;

use crate::arm_locals::caller_locals;
use crate::body::lowered_arm;
use crate::config::LowererConfig;
use crate::dispatch::{
    arm_tests, ArmPattern, call_arm, ClassifiedArm, dispatch_arm, dispatch_arms, dispatch_chain,
    grows_arm_tests, grows_dispatch_arms, grows_run_arm, grows_test_values, keep_arm,
    opcode_register, run_arm, takes_all, test_value, test_values,
};
use crate::extended_arg::Bindings;
use crate::growth::{grows, grows_aux, grows_further, grows_jump, grows_label_taken, grows_live};
use crate::layout::{layout_args, layout_family, packed_layout};
use crate::lowerer::{first_overflow, LowerState};
use crate::ops::{ArmBody, Instr, Label, Op, PatValue, StmtView};
use crate::patterns::pat_values;

verus! {

// ── Arms ─────────────────────────────────────────────────────────────

/// The values that the chain tests for an arm.
pub open spec fn tested<'a>(arm: &'a ClassifiedArm) -> Option<Seq<PatValue<'a>>> {
    if takes_all(arm.pat) {
        None
    } else {
        pat_values(&arm.pat)
    }
}

/// Whether the arm's body is lowered and kept.
pub open spec fn keeps_body<'a>(
    bindings: Bindings,
    arm: &'a ClassifiedArm,
    config: &'a LowererConfig,
) -> bool {
    arm.pattern is Lowerable && lowered_arm(
        &arm.original_body,
        Some(config),
        caller_locals(bindings, arm.pat, arm.original_body),
    ).1
}

/// The number of bodies that are kept for the arms from the `i`th up to the `k`th.
pub open spec fn bodies_kept<'a>(
    bindings: Bindings,
    arms: &'a Vec<ClassifiedArm>,
    i: int,
    k: int,
    config: &'a LowererConfig,
) -> nat
    decreases k - i,
{
    if 0 <= i < k && i < arms.len() {
        bodies_kept(bindings, arms, i + 1, k, config) + if tested(&arms[i]) is Some && keeps_body(
            bindings,
            &arms[i],
            config,
        ) {
            1nat
        } else {
            0
        }
    } else {
        0
    }
}

/// The call of an arm, where `bodies` bodies were kept before it.
pub open spec fn arm_call<'a>(
    bindings: Bindings,
    bodies: nat,
    arm: &'a ClassifiedArm,
    config: &'a LowererConfig,
) -> StmtView<'a> {
    let layout = if keeps_body(bindings, arm, config) {
        packed_layout(caller_locals(bindings, arm.pat, arm.original_body))
    } else {
        seq![]
    };
    let body = match arm.pattern {
        ArmPattern::Lowerable => if keeps_body(bindings, arm, config) {
            ArmBody::Lowered(bodies as usize)
        } else {
            ArmBody::Abort
        },
        ArmPattern::Nop => ArmBody::Empty,
        ArmPattern::AbortPermanent | ArmPattern::Halt => ArmBody::AbortPermanent,
        ArmPattern::Unsupported => ArmBody::Abort,
    };
    Instr::ArmCall { body, family: layout_family(layout), args: layout_args(layout) }
}

// ── Code ─────────────────────────────────────────────────────────────

pub open spec fn label(id: int) -> Label {
    Label { id: id as u16 }
}

/// The comparison of the opcode with one value, whose constant is in register
/// `c`.
pub open spec fn value_code<'a>(
    v: PatValue<'a>,
    last: bool,
    c: u16,
    opcode: u16,
    miss: Label,
    matched: Option<Label>,
) -> Seq<StmtView<'a>> {
    match matched {
        None => seq![
            Instr::Op(Op::LoadPatValue(c, v)),
            Instr::Op(Op::GotoIfNotIntEq(opcode, c, miss)),
        ],
        Some(m) => if last {
            seq![
                Instr::Op(Op::LoadPatValue(c, v)),
                Instr::Op(Op::GotoIfNotIntEq(opcode, c, miss)),
                Instr::Op(Op::Jump(m)),
            ]
        } else {
            seq![
                Instr::Op(Op::LoadPatValue(c, v)),
                Instr::Op(Op::NewLabel(miss)),
                Instr::Op(Op::GotoIfNotIntEq(opcode, c, miss)),
                Instr::Op(Op::Jump(m)),
                Instr::Op(Op::MarkLabel(miss)),
            ]
        },
    }
}

/// The comparisons with the values from the `i`th on, with constants in the
/// registers from `c` on and labels from `l` on.
pub open spec fn tests_code<'a>(
    values: Seq<PatValue<'a>>,
    i: int,
    c: int,
    l: int,
    opcode: u16,
    skip: Label,
    matched: Option<Label>,
) -> Seq<StmtView<'a>>
    decreases values.len() - i,
{
    if 0 <= i < values.len() {
        let last = i + 1 == values.len();
        let miss = if last {
            skip
        } else {
            label(l)
        };
        value_code(values[i], last, c as u16, opcode, miss, matched) + tests_code(
            values,
            i + 1,
            c + 1,
            l + 1,
            opcode,
            skip,
            matched,
        )
    } else {
        seq![]
    }
}

/// The number of labels that the tests of an arm take, besides that behind the arm.
pub open spec fn test_labels<'a>(values: Seq<PatValue<'a>>) -> int {
    if values.len() > 1 {
        values.len() as int
    } else {
        0
    }
}

/// The tests of an arm.
pub open spec fn all_tests_code<'a>(
    values: Seq<PatValue<'a>>,
    c: int,
    l: int,
    opcode: u16,
) -> Seq<StmtView<'a>> {
    if values.len() > 1 {
        seq![Instr::Op(Op::NewLabel(label(l + 1)))] + tests_code(
            values,
            0,
            c,
            l + 2,
            opcode,
            label(l),
            Some(label(l + 1)),
        ) + seq![Instr::Op(Op::MarkLabel(label(l + 1)))]
    } else {
        tests_code(values, 0, c, l + 1, opcode, label(l), None)
    }
}

/// An arm: its tests, its call, a live marker, and the jump to `start`. The label
/// `l` stands behind it.
pub open spec fn arm_code<'a>(
    values: Seq<PatValue<'a>>,
    call: StmtView<'a>,
    c: int,
    l: int,
    opcode: u16,
    start: Label,
) -> Seq<StmtView<'a>> {
    seq![Instr::Op(Op::NewLabel(label(l)))] + all_tests_code(values, c, l, opcode) + seq![
        call,
        Instr::Op(Op::LivePlaceholder),
        Instr::Op(Op::Jump(start)),
        Instr::Op(Op::MarkLabel(label(l))),
    ]
}

/// The arms from the `i`th on, with constants in the registers from `c` on and
/// labels from `l` on, where `bodies` bodies were kept before them.
pub open spec fn arms_code<'a>(
    bindings: Bindings,
    arms: &'a Vec<ClassifiedArm>,
    i: int,
    config: &'a LowererConfig,
    start: Label,
    opcode: u16,
    c: int,
    l: int,
    bodies: nat,
) -> Seq<StmtView<'a>>
    decreases arms.len() - i,
{
    if 0 <= i < arms.len() {
        match tested(&arms[i]) {
            Some(values) => arm_code(
                values,
                arm_call(bindings, bodies, &arms[i], config),
                c,
                l,
                opcode,
                start,
            ) + arms_code(
                bindings,
                arms,
                i + 1,
                config,
                start,
                opcode,
                c + values.len(),
                l + 1 + test_labels(values),
                bodies + if keeps_body(bindings, &arms[i], config) {
                    1nat
                } else {
                    0
                },
            ),
            None => arms_code(bindings, arms, i + 1, config, start, opcode, c, l, bodies),
        }
    } else {
        seq![]
    }
}

/// The whole chain from state `s` on, whose default label is the next one.
pub open spec fn chain_code<'a>(
    s: LowerState<'a>,
    arms: &'a Vec<ClassifiedArm>,
    config: &'a LowererConfig,
    start: Label,
    opcode: u16,
) -> Seq<StmtView<'a>> {
    seq![Instr::Op(Op::NewLabel(s.fresh_label()))] + arms_code(
        s.bindings,
        arms,
        0,
        config,
        start,
        opcode,
        s.next_reg as int,
        s.next_label + 1,
        s.arm_bodies.len(),
    ) + seq![Instr::Op(Op::Jump(s.fresh_label()))]
}

/// The labels that the arms from the `i`th on take.
pub open spec fn arms_labels<'a>(arms: &'a Vec<ClassifiedArm>, i: int) -> int
    decreases arms.len() - i,
{
    if 0 <= i < arms.len() {
        arms_labels(arms, i + 1) + match tested(&arms[i]) {
            Some(values) => 1 + test_labels(values),
            None => 0,
        }
    } else {
        0
    }
}

/// The registers that the arms from the `i`th on take.
pub open spec fn arms_regs<'a>(arms: &'a Vec<ClassifiedArm>, i: int) -> int
    decreases arms.len() - i,
{
    if 0 <= i < arms.len() {
        arms_regs(arms, i + 1) + match tested(&arms[i]) {
            Some(values) => values.len() as int,
            None => 0,
        }
    } else {
        0
    }
}

// ── What the steps add ───────────────────────────────────────────────

/// Whether `t` is `s` with the code added, and so many registers and labels taken
/// and bodies kept.
spec fn adds<'a>(
    s: LowerState<'a>,
    t: LowerState<'a>,
    code: Seq<StmtView<'a>>,
    regs: int,
    labels: int,
    bodies: nat,
) -> bool {
    &&& t.statements == s.statements + code
    &&& t.next_reg == s.next_reg + regs
    &&& t.next_label == s.next_label + labels
    &&& t.bindings == s.bindings
    &&& t.opcode_var == s.opcode_var
    &&& t.arm_bodies.len() == s.arm_bodies.len() + bodies
}

proof fn lemma_test_value_adds<'a>(
    s: LowerState<'a>,
    v: PatValue<'a>,
    last: bool,
    opcode: u16,
    skip: Label,
    matched: Option<Label>,
)
    requires
        test_value(s, v, last, opcode, skip, matched).rejected is None,
        test_value(s, v, last, opcode, skip, matched).next_label < u16::MAX,
        matched is None ==> last,
    ensures
        s.next_reg <= 255,
        adds(
            s,
            test_value(s, v, last, opcode, skip, matched),
            value_code(
                v,
                last,
                s.next_reg,
                opcode,
                if last {
                    skip
                } else {
                    s.fresh_label()
                },
                matched,
            ),
            1,
            if last {
                0
            } else {
                1
            },
            0,
        ),
{
    reveal(test_value);
    reveal(LowerState::reg_taken);
    reveal(LowerState::emit_op);
    reveal(LowerState::emit);
    reveal(LowerState::label_taken);
    reveal(LowerState::aux);
    reveal(LowerState::branch);
    reveal(LowerState::jump);
    reveal(LowerState::label_def);
    reveal(LowerState::push);
    reveal(LowerState::reject);
    reveal_with_fuel(first_overflow, 2);
    let t = test_value(s, v, last, opcode, skip, matched);
    let miss = if last {
        skip
    } else {
        s.fresh_label()
    };
    assert(t.statements =~= s.statements + value_code(
        v,
        last,
        s.next_reg,
        opcode,
        miss,
        matched,
    ));
}

proof fn lemma_test_values_adds<'a>(
    s: LowerState<'a>,
    values: Seq<PatValue<'a>>,
    i: int,
    opcode: u16,
    skip: Label,
    matched: Option<Label>,
)
    requires
        0 <= i <= values.len(),
        test_values(s, values, i, opcode, skip, matched).rejected is None,
        test_values(s, values, i, opcode, skip, matched).next_label < u16::MAX,
        matched is None ==> values.len() <= 1,
    ensures
        i < values.len() ==> s.next_reg + values.len() - i <= 256,
        adds(
            s,
            test_values(s, values, i, opcode, skip, matched),
            tests_code(values, i, s.next_reg as int, s.next_label as int, opcode, skip, matched),
            values.len() - i,
            if i < values.len() {
                values.len() - i - 1
            } else {
                0
            },
            0,
        ),
    decreases values.len() - i,
{
    let t = test_values(s, values, i, opcode, skip, matched);
    let code = tests_code(
        values,
        i,
        s.next_reg as int,
        s.next_label as int,
        opcode,
        skip,
        matched,
    );
    if i < values.len() {
        let last = i + 1 == values.len();
        let u = test_value(s, values[i], last, opcode, skip, matched);
        assert(u.rejected is None && u.next_label <= t.next_label) by {
            grows_test_values(u, values, i + 1, opcode, skip, matched);
            reveal(grows);
        }
        lemma_test_value_adds(s, values[i], last, opcode, skip, matched);
        lemma_test_values_adds(u, values, i + 1, opcode, skip, matched);
        let rest = tests_code(
            values,
            i + 1,
            u.next_reg as int,
            u.next_label as int,
            opcode,
            skip,
            matched,
        );
        let miss = if last {
            skip
        } else {
            s.fresh_label()
        };
        assert(rest == tests_code(
            values,
            i + 1,
            s.next_reg + 1,
            s.next_label + 1,
            opcode,
            skip,
            matched,
        ));
        assert(code =~= value_code(values[i], last, s.next_reg, opcode, miss, matched) + rest);
        assert(t.statements =~= s.statements + code);
    } else {
        assert(t.statements =~= s.statements + code);
    }
}

proof fn lemma_arm_tests_adds<'a>(
    s: LowerState<'a>,
    values: Seq<PatValue<'a>>,
    opcode: u16,
)
    requires
        s.next_label > 0,
        arm_tests(s, values, opcode, label(s.next_label - 1)).rejected is None,
        arm_tests(s, values, opcode, label(s.next_label - 1)).next_label < u16::MAX,
    ensures
        values.len() > 0 ==> s.next_reg + values.len() <= 256,
        adds(
            s,
            arm_tests(s, values, opcode, label(s.next_label - 1)),
            all_tests_code(values, s.next_reg as int, s.next_label - 1, opcode),
            values.len() as int,
            test_labels(values),
            0,
        ),
{
    let skip = label(s.next_label - 1);
    let t = arm_tests(s, values, opcode, skip);
    reveal(arm_tests);
    if values.len() > 1 {
        let matched = s.fresh_label();
        let s1 = s.label_taken().aux(Op::NewLabel(matched));
        let s2 = test_values(s1, values, 0, opcode, skip, Some(matched));
        assert(s2.rejected is None && s2.next_label == t.next_label && t.statements
            =~= s2.statements + seq![Instr::Op(Op::MarkLabel(matched))] && t.next_reg == s2.next_reg
            && t.bindings == s2.bindings && t.opcode_var == s2.opcode_var && t.arm_bodies
            == s2.arm_bodies) by {
            reveal(LowerState::label_def);
            reveal(LowerState::push);
        }
        assert(s1.next_label <= s2.next_label) by {
            grows_test_values(s1, values, 0, opcode, skip, Some(matched));
            reveal(grows);
        }
        assert(adds(s, s1, seq![Instr::Op(Op::NewLabel(matched))], 0, 1, 0)) by {
            reveal(LowerState::label_taken);
            reveal(LowerState::aux);
            reveal(LowerState::push);
            assert(s1.statements =~= s.statements + seq![Instr::Op(Op::NewLabel(matched))]);
        }
        lemma_test_values_adds(s1, values, 0, opcode, skip, Some(matched));
        assert(t.statements =~= s.statements + all_tests_code(
            values,
            s.next_reg as int,
            s.next_label - 1,
            opcode,
        ));
    } else {
        lemma_test_values_adds(s, values, 0, opcode, skip, None);
    }
}

proof fn lemma_run_arm_adds<'a>(
    s: LowerState<'a>,
    arm: &'a ClassifiedArm,
    config: &'a LowererConfig,
)
    requires
        run_arm(s, arm, config).rejected is None,
    ensures
        adds(
            s,
            run_arm(s, arm, config),
            seq![arm_call(s.bindings, s.arm_bodies.len(), arm, config)],
            0,
            0,
            if keeps_body(s.bindings, arm, config) {
                1
            } else {
                0
            },
        ),
{
    reveal(run_arm);
    reveal(call_arm);
    reveal(keep_arm);
    reveal(LowerState::emit);
    reveal(LowerState::push);
    reveal(LowerState::reject);
    let t = run_arm(s, arm, config);
    assert(t.statements =~= s.statements + seq![
        arm_call(s.bindings, s.arm_bodies.len(), arm, config),
    ]);
}

proof fn lemma_dispatch_arm_adds<'a>(
    s: LowerState<'a>,
    arm: &'a ClassifiedArm,
    config: &'a LowererConfig,
    start: Label,
    opcode: u16,
    values: Seq<PatValue<'a>>,
)
    requires
        dispatch_arm(s, arm, config, start, opcode).rejected is None,
        dispatch_arm(s, arm, config, start, opcode).next_label < u16::MAX,
        tested(arm) == Some(values),
    ensures
        values.len() > 0 ==> s.next_reg + values.len() <= 256,
        adds(
            s,
            dispatch_arm(s, arm, config, start, opcode),
            arm_code(
                values,
                arm_call(s.bindings, s.arm_bodies.len(), arm, config),
                s.next_reg as int,
                s.next_label as int,
                opcode,
                start,
            ),
            values.len() as int,
            1 + test_labels(values),
            if keeps_body(s.bindings, arm, config) {
                1
            } else {
                0
            },
        ),
{
    broadcast use {grows_further, grows_live, grows_jump};

    reveal(dispatch_arm);
    let t = dispatch_arm(s, arm, config, start, opcode);
    let skip = s.fresh_label();
    let s1 = s.label_taken().aux(Op::NewLabel(skip));
    let s2 = arm_tests(s1, values, opcode, skip);
    let s3 = run_arm(s2, arm, config);
    let call = arm_call(s.bindings, s.arm_bodies.len(), arm, config);
    let s4 = s3.live().jump(start);
    assert(grows(s3, s4));
    assert(s4.rejected == t.rejected && s4.next_label == t.next_label) by {
        reveal(LowerState::label_def);
        reveal(LowerState::push);
    }
    assert(s2.rejected is None && s3.rejected is None && s2.next_label <= s3.next_label
        && s3.next_label <= t.next_label) by {
        grows_run_arm(s2, arm, config);
        reveal(grows);
    }
    assert(s1.next_label <= s2.next_label && s.next_label <= s1.next_label) by {
        grows_arm_tests(s1, values, opcode, skip);
        grows_label_taken(s);
        grows_aux(s.label_taken(), Op::NewLabel(skip));
        reveal(grows);
    }
    assert(adds(s, s1, seq![Instr::Op(Op::NewLabel(skip))], 0, 1, 0)) by {
        reveal(LowerState::label_taken);
        reveal(LowerState::aux);
        reveal(LowerState::push);
        assert(s1.statements =~= s.statements + seq![Instr::Op(Op::NewLabel(skip))]);
    }
    lemma_arm_tests_adds(s1, values, opcode);
    lemma_run_arm_adds(s2, arm, config);
    let tail = seq![
        Instr::Op(Op::LivePlaceholder),
        Instr::Op(Op::Jump(start)),
        Instr::Op(Op::MarkLabel(skip)),
    ];
    assert(adds(s3, t, tail, 0, 0, 0)) by {
        reveal(LowerState::live);
        reveal(LowerState::jump);
        reveal(LowerState::label_def);
        reveal(LowerState::push);
        assert(t.statements =~= s3.statements + tail);
    }
    assert(t.statements =~= s.statements + arm_code(
        values,
        call,
        s.next_reg as int,
        s.next_label as int,
        opcode,
        start,
    ));
}

proof fn lemma_dispatch_arms_add<'a>(
    s: LowerState<'a>,
    arms: &'a Vec<ClassifiedArm>,
    i: int,
    config: &'a LowererConfig,
    start: Label,
    opcode: u16,
)
    requires
        0 <= i <= arms.len(),
        dispatch_arms(s, arms, i, config, start, opcode).rejected is None,
        dispatch_arms(s, arms, i, config, start, opcode).next_label < u16::MAX,
    ensures
        ({
            let t = dispatch_arms(s, arms, i, config, start, opcode);
            &&& t.statements == s.statements + arms_code(
                s.bindings,
                arms,
                i,
                config,
                start,
                opcode,
                s.next_reg as int,
                s.next_label as int,
                s.arm_bodies.len(),
            )
            &&& t.next_label == s.next_label + arms_labels(arms, i)
            &&& t.next_reg == s.next_reg + arms_regs(arms, i)
            &&& arms_regs(arms, i) > 0 ==> t.next_reg <= 256
        }),
    decreases arms.len() - i,
{
    let t = dispatch_arms(s, arms, i, config, start, opcode);
    if i < arms.len() {
        let u = dispatch_arm(s, &arms[i], config, start, opcode);
        assert(u.rejected is None && u.next_label <= t.next_label) by {
            grows_dispatch_arms(u, arms, i + 1, config, start, opcode);
            reveal(grows);
        }
        lemma_dispatch_arms_add(u, arms, i + 1, config, start, opcode);
        match tested(&arms[i]) {
            Some(values) => {
                lemma_dispatch_arm_adds(s, &arms[i], config, start, opcode, values);
            },
            None => {
                assert(u == s) by {
                    reveal(dispatch_arm);
                }
            },
        }
    }
    assert(t.statements =~= s.statements + arms_code(
        s.bindings,
        arms,
        i,
        config,
        start,
        opcode,
        s.next_reg as int,
        s.next_label as int,
        s.arm_bodies.len(),
    ));
}

/// A chain that is not rejected, and that does not run out of labels, adds its
/// code and nothing else.
pub proof fn lemma_chain_code<'a>(
    s: LowerState<'a>,
    arms: &'a Vec<ClassifiedArm>,
    config: &'a LowererConfig,
    start: Label,
    opcode: u16,
)
    requires
        opcode_register(s) == Some(opcode),
        dispatch_chain(s, arms, config, start).rejected is None,
        dispatch_chain(s, arms, config, start).next_label < u16::MAX,
    ensures
        dispatch_chain(s, arms, config, start).statements == s.statements + chain_code(
            s,
            arms,
            config,
            start,
            opcode,
        ),
        s.next_label + 1 + arms_labels(arms, 0) < u16::MAX,
        arms_regs(arms, 0) > 0 ==> s.next_reg + arms_regs(arms, 0) <= 256,
{
    reveal(dispatch_chain);
    let t = dispatch_chain(s, arms, config, start);
    let default_label = s.fresh_label();
    let s1 = s.label_taken().aux(Op::NewLabel(default_label));
    assert(s1.bindings == s.bindings && s1.opcode_var == s.opcode_var && s1.arm_bodies
        == s.arm_bodies && s1.next_reg == s.next_reg && s1.statements =~= s.statements + seq![
        Instr::Op(Op::NewLabel(default_label)),
    ] && s1.next_label == crate::lowerer::next_u16(s.next_label)) by {
        reveal(LowerState::label_taken);
        reveal(LowerState::aux);
        reveal(LowerState::push);
    }
    let s2 = dispatch_arms(s1, arms, 0, config, start, opcode);
    assert(s2.rejected is None && s2.next_label == t.next_label && t.statements =~= s2.statements
        + seq![Instr::Op(Op::Jump(default_label))]) by {
        reveal(LowerState::jump);
        reveal(LowerState::push);
    }
    assert(s1.next_label <= s2.next_label) by {
        grows_dispatch_arms(s1, arms, 0, config, start, opcode);
        reveal(grows);
    }
    lemma_dispatch_arms_add(s1, arms, 0, config, start, opcode);
    assert(t.statements =~= s.statements + chain_code(s, arms, config, start, opcode));
}

} // verus!
