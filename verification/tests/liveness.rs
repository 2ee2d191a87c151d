//! Liveness at markers, and what is done with the markers.

use majit::ast::{Expr, ExprKind, Lit};
use majit::kinds::{BindingKind, Register};
use majit::liveness::{
    compute_per_marker_liveness, get_liveness_info, liveness_triple, liveness_triple_from_reads,
};
use majit::markers::{
    annotate_live_markers_with_liveness, remove_repeated_live,
    rewrite_live_marker_statements_with_triples,
};
use majit::ops::{
    ControlFlowClass, Instr, Label, LiveMarkerCondition, Op, OpKind, OpMeta, Stmt,
};
use majit::ordset::OrdSet;
use majit::policy::RaisingCodes;

fn label(id: u16) -> Label {
    Label { id }
}

fn uses(regs: &[u16]) -> OpMeta<'static> {
    OpMeta::linear(OpKind::BinopI, Register::ints(regs), vec![])
}

fn live(ops: Vec<OpMeta>) -> Vec<Vec<Register>> {
    compute_per_marker_liveness(&ops).into_iter().map(|set| set.items).collect()
}

fn placeholder() -> Stmt<'static> {
    Instr::Op(Op::LivePlaceholder)
}

fn numbered(count: usize) -> Vec<Stmt<'static>> {
    (0..count).map(|i| Instr::Op(Op::LoadConst(0, i as i64))).collect()
}

fn callee() -> Expr {
    Expr { id: 0, kind: ExprKind::Lit(Lit::Other) }
}

fn condition(func: &Expr) -> LiveMarkerCondition<'_> {
    LiveMarkerCondition { func, codes: RaisingCodes::ValueCall }
}

fn set(regs: &[Register]) -> OrdSet<Register> {
    OrdSet::from_list(regs)
}

#[test]
fn liveness_records_alive_at_marker_after_use() {
    let result = live(vec![OpMeta::live_marker(), uses(&[5])]);
    assert_eq!(result, vec![vec![Register::int_(5)]]);
}

#[test]
fn liveness_def_kills_use_kept() {
    let result = live(vec![
        OpMeta::live_marker(),
        uses(&[3]),
        OpMeta::linear(OpKind::BinopI, Register::ints(&[5]), Register::ints(&[3])),
    ]);
    assert_eq!(result, vec![vec![Register::int_(3), Register::int_(5)]]);
}

#[test]
fn a_definition_ends_a_life() {
    let result = live(vec![
        OpMeta::live_marker(),
        OpMeta::linear(OpKind::LoadConstI, vec![], Register::ints(&[3])),
        uses(&[3]),
    ]);
    assert_eq!(result, vec![vec![]]);
}

#[test]
fn liveness_jump_overwrites_alive_with_label_set() {
    let result = live(vec![
        OpMeta::live_marker(),
        OpMeta::jump(label(1)),
        OpMeta::label_def(label(2)),
        uses(&[7]),
        OpMeta::label_def(label(1)),
        uses(&[9]),
    ]);
    assert_eq!(result, vec![vec![Register::int_(9)]]);
}

#[test]
fn liveness_back_edge_loop_reaches_fixed_point() {
    let result = live(vec![
        OpMeta::label_def(label(0)),
        OpMeta::live_marker(),
        uses(&[2]),
        OpMeta::jump(label(0)),
    ]);
    assert_eq!(result, vec![vec![Register::int_(2)]]);
}

#[test]
fn what_a_loop_uses_is_alive_behind_its_use() {
    // The marker stands behind the use, and the use comes again after the jump.
    let result = live(vec![
        OpMeta::label_def(label(0)),
        uses(&[2]),
        OpMeta::live_marker(),
        OpMeta::jump(label(0)),
    ]);
    assert_eq!(result, vec![vec![Register::int_(2)]]);
}

#[test]
fn liveness_conditional_guard_reads_cond_and_unions_branch_target() {
    let result = live(vec![
        OpMeta::live_marker(),
        OpMeta::conditional_guard(Register::int_(4), label(1)),
        uses(&[6]),
        OpMeta::label_def(label(1)),
        uses(&[8]),
    ]);
    assert_eq!(
        result,
        vec![vec![Register::int_(4), Register::int_(6), Register::int_(8)]]
    );
}

#[test]
fn nothing_is_alive_behind_a_return() {
    let result = live(vec![
        OpMeta::live_marker(),
        OpMeta::terminal(Register::ints(&[1])),
        uses(&[6]),
    ]);
    assert_eq!(result, vec![vec![Register::int_(1)]]);
}

#[test]
fn liveness_marker_with_explicit_args_force_alive() {
    let result =
        live(vec![OpMeta::live_marker_with(Register::ints(&[7]), Vec::new()), uses(&[5])]);
    assert_eq!(result, vec![vec![Register::int_(5), Register::int_(7)]]);
}

#[test]
fn liveness_marker_with_target_label_unions_label_set() {
    let result = live(vec![
        OpMeta::live_marker_with(Vec::new(), vec![label(1)]),
        uses(&[3]),
        OpMeta::jump(label(1)),
        OpMeta::label_def(label(1)),
        uses(&[9]),
    ]);
    assert_eq!(result, vec![vec![Register::int_(3), Register::int_(9)]]);
}

#[test]
fn liveness_marker_with_multiple_target_labels_unions_all_label_sets() {
    let result = live(vec![
        OpMeta::live_marker_with(Vec::new(), vec![label(1), label(2)]),
        OpMeta::jump(label(1)),
        OpMeta::label_def(label(2)),
        uses(&[7]),
        OpMeta::label_def(label(1)),
        uses(&[9]),
    ]);
    assert_eq!(result, vec![vec![Register::int_(7), Register::int_(9)]]);
}

#[test]
fn remove_repeated_live_is_no_op_when_runs_have_one_marker() {
    let mut ops = vec![OpMeta::live_marker(), uses(&[1]), OpMeta::live_marker(), uses(&[2])];
    let mut stmts = numbered(ops.len());
    let before_len = ops.len();
    remove_repeated_live(&mut ops, &mut stmts);
    assert_eq!(ops.len(), before_len);
    assert_eq!(stmts.len(), before_len);
}

#[test]
fn remove_repeated_live_collapses_consecutive_markers() {
    let mut ops = vec![
        OpMeta::live_marker_with(Register::ints(&[1]), Vec::new()),
        OpMeta::live_marker_with(Register::ints(&[2]), Vec::new()),
        OpMeta::label_def(label(0)),
        OpMeta::live_marker(),
        uses(&[3]),
    ];
    let mut stmts = numbered(ops.len());
    remove_repeated_live(&mut ops, &mut stmts);
    assert_eq!(ops.len(), 3);
    assert!(matches!(ops[0].control, ControlFlowClass::LabelDef));
    assert!(matches!(ops[1].control, ControlFlowClass::LiveMarker));
    assert_eq!(ops[1].reads, vec![Register::int_(1), Register::int_(2)]);
    assert!(matches!(ops[2].control, ControlFlowClass::Linear));
    // The first marker's statement stands for all of them.
    assert!(matches!(stmts[0], Instr::Op(Op::LoadConst(0, 2))));
    assert!(matches!(stmts[1], Instr::Op(Op::LoadConst(0, 0))));
    assert!(matches!(stmts[2], Instr::Op(Op::LoadConst(0, 4))));
}

#[test]
fn remove_repeated_live_preserves_all_marker_target_labels() {
    let mut ops = vec![
        OpMeta::live_marker_with(Register::ints(&[1]), vec![label(2)]),
        OpMeta::live_marker_with(Register::ints(&[2]), vec![label(1)]),
        uses(&[3]),
    ];
    let mut stmts = numbered(ops.len());
    remove_repeated_live(&mut ops, &mut stmts);
    assert_eq!(ops.len(), 2);
    assert!(matches!(ops[0].control, ControlFlowClass::LiveMarker));
    assert_eq!(ops[0].reads, vec![Register::int_(1), Register::int_(2)]);
    assert_eq!(ops[0].live_target_labels, vec![label(1), label(2)]);
    assert!(matches!(ops[1].control, ControlFlowClass::Linear));
}

#[test]
fn merged_labels_are_in_the_order_of_their_text() {
    let mut ops = vec![
        OpMeta::live_marker_with(Vec::new(), vec![label(9), label(10), label(9)]),
        OpMeta::live_marker_with(Vec::new(), vec![label(100), label(1)]),
    ];
    let mut stmts = numbered(ops.len());
    remove_repeated_live(&mut ops, &mut stmts);
    assert_eq!(
        ops[0].live_target_labels,
        vec![label(1), label(10), label(100), label(9)]
    );
}

#[test]
fn remove_repeated_live_keeps_conditional_only_runs_unmerged() {
    let func = callee();
    let mut ops = vec![
        OpMeta::live_marker_if(condition(&func)),
        OpMeta::live_marker_if(condition(&func)),
        uses(&[3]),
    ];
    let mut stmts = numbered(ops.len());
    remove_repeated_live(&mut ops, &mut stmts);
    assert_eq!(ops.len(), 3);
    assert!(matches!(ops[0].control, ControlFlowClass::LiveMarker));
    assert!(matches!(ops[1].control, ControlFlowClass::LiveMarker));
    assert!(ops[0].live_condition.is_some());
    assert!(ops[1].live_condition.is_some());
    assert!(matches!(ops[2].control, ControlFlowClass::Linear));
}

#[test]
fn remove_repeated_live_drops_conditions_when_run_includes_unconditional_marker() {
    let func = callee();
    let mut ops = vec![
        OpMeta::live_marker_if(condition(&func)),
        OpMeta::live_marker_with(Register::ints(&[1]), vec![]),
        OpMeta::live_marker_if(condition(&func)),
        uses(&[3]),
    ];
    let mut stmts = numbered(ops.len());
    remove_repeated_live(&mut ops, &mut stmts);
    assert_eq!(ops.len(), 2);
    assert!(matches!(ops[0].control, ControlFlowClass::LiveMarker));
    assert!(ops[0].live_condition.is_none());
    assert_eq!(ops[0].reads, vec![Register::int_(1)]);
    assert!(matches!(ops[1].control, ControlFlowClass::Linear));
}

#[test]
fn rewrite_live_marker_replaces_placeholder_with_triple() {
    let ops = vec![
        OpMeta::live_marker(),
        OpMeta::linear(OpKind::BinopI, Register::ints(&[1]), Register::ints(&[2])),
    ];
    let mut stmts = vec![placeholder(), Instr::Op(Op::LoadConst(0, 1234))];
    rewrite_live_marker_statements_with_triples(&ops, &mut stmts);
    match &stmts[0] {
        Instr::Live { condition, triple } => {
            assert!(condition.is_none());
            assert_eq!(triple.i, vec![1u8]);
            assert!(triple.r.is_empty());
            assert!(triple.f.is_empty());
        }
        _ => panic!("the marker should name its registers"),
    }
    assert!(matches!(stmts[1], Instr::Op(Op::LoadConst(0, 1234))));
}

#[test]
fn rewrite_live_marker_emits_typed_arrays_per_bank() {
    let ops = vec![
        OpMeta::live_marker(),
        OpMeta::linear(OpKind::Vable, vec![Register::int_(3), Register::ref_(7)], vec![]),
    ];
    let mut stmts = vec![placeholder(), Instr::Op(Op::VoidReturn)];
    rewrite_live_marker_statements_with_triples(&ops, &mut stmts);
    match &stmts[0] {
        Instr::Live { triple, .. } => {
            assert_eq!(triple.i, vec![3u8]);
            assert_eq!(triple.r, vec![7u8]);
        }
        _ => panic!("the marker should name its registers"),
    }
}

#[test]
fn liveness_aux_is_pass_through() {
    let result = live(vec![OpMeta::live_marker(), OpMeta::aux(), uses(&[1])]);
    assert_eq!(result, vec![vec![Register::int_(1)]]);
}

#[test]
fn annotation_writes_down_what_is_alive() {
    let mut ops = vec![OpMeta::live_marker(), uses(&[9, 4])];
    annotate_live_markers_with_liveness(&mut ops);
    assert_eq!(ops[0].reads, Register::ints(&[4, 9]));
    assert_eq!(ops[1].reads, Register::ints(&[9, 4]));
}

#[test]
fn a_triple_holds_every_register_and_no_other() {
    let regs = [
        Register::int_(3),
        Register::int_(200),
        Register::ref_(3),
        Register::float(0),
        Register::float(255),
    ];
    let (i, r, f) = liveness_triple(&set(&regs));
    assert_eq!(i, vec![3u8, 200u8]);
    assert_eq!(r, vec![3u8]);
    assert_eq!(f, vec![0u8, 255u8]);
    assert_eq!(i.len() + r.len() + f.len(), regs.len());
}

#[test]
fn annotating_twice_changes_nothing() {
    let mut ops = vec![
        OpMeta::label_def(label(0)),
        OpMeta::live_marker_with(Register::ints(&[7]), Vec::new()),
        uses(&[9, 4]),
        OpMeta::live_marker(),
        OpMeta::jump(label(0)),
    ];
    let before = live(vec![
        OpMeta::label_def(label(0)),
        OpMeta::live_marker_with(Register::ints(&[7]), Vec::new()),
        uses(&[9, 4]),
        OpMeta::live_marker(),
        OpMeta::jump(label(0)),
    ]);
    annotate_live_markers_with_liveness(&mut ops);
    let first: Vec<Vec<Register>> = ops.iter().map(|op| op.reads.clone()).collect();
    assert_eq!(first[1], Register::ints(&[4, 7, 9]));
    assert_eq!(first[3], Register::ints(&[4, 7, 9]));
    annotate_live_markers_with_liveness(&mut ops);
    let second: Vec<Vec<Register>> = ops.iter().map(|op| op.reads.clone()).collect();
    assert_eq!(first, second);
    assert_eq!(live(ops), before);
}

#[test]
fn removing_repeated_markers_twice_changes_nothing() {
    let func = callee();
    let mut ops = vec![
        OpMeta::live_marker_with(Register::ints(&[1]), Vec::new()),
        OpMeta::label_def(label(0)),
        OpMeta::live_marker_with(Register::ints(&[2]), Vec::new()),
        OpMeta::label_def(label(1)),
        uses(&[3]),
        OpMeta::live_marker_if(condition(&func)),
        OpMeta::label_def(label(2)),
        OpMeta::live_marker_if(condition(&func)),
        uses(&[4]),
        OpMeta::live_marker_if(condition(&func)),
        OpMeta::label_def(label(3)),
    ];
    let mut stmts = numbered(ops.len());
    remove_repeated_live(&mut ops, &mut stmts);
    let controls: Vec<ControlFlowClass> = ops.iter().map(|op| op.control).collect();
    assert_eq!(
        controls,
        vec![
            ControlFlowClass::LabelDef,
            ControlFlowClass::LabelDef,
            ControlFlowClass::LiveMarker,
            ControlFlowClass::Linear,
            ControlFlowClass::LiveMarker,
            ControlFlowClass::LabelDef,
            ControlFlowClass::LiveMarker,
            ControlFlowClass::Linear,
            ControlFlowClass::LabelDef,
            ControlFlowClass::LiveMarker,
        ]
    );
    let places = |stmts: &[Stmt]| -> Vec<i64> {
        stmts
            .iter()
            .map(|s| match s {
                Instr::Op(Op::LoadConst(_, n)) => *n,
                _ => panic!("a numbered statement"),
            })
            .collect()
    };
    let first = places(&stmts);
    assert_eq!(first, vec![1, 3, 0, 4, 5, 6, 7, 8, 10, 9]);
    remove_repeated_live(&mut ops, &mut stmts);
    assert_eq!(ops.iter().map(|op| op.control).collect::<Vec<_>>(), controls);
    assert_eq!(ops[2].reads, Register::ints(&[1, 2]));
    assert_eq!(places(&stmts), first);
}

#[test]
fn get_liveness_info_filters_by_kind() {
    let set = set(&[
        Register::int_(3),
        Register::ref_(7),
        Register::int_(5),
        Register::float(2),
        Register::ref_(1),
    ]);
    assert_eq!(get_liveness_info(&set, BindingKind::Int), vec![3u8, 5u8]);
    assert_eq!(get_liveness_info(&set, BindingKind::Ref), vec![1u8, 7u8]);
    assert_eq!(get_liveness_info(&set, BindingKind::Float), vec![2u8]);
}

#[test]
fn liveness_triple_keeps_per_bank_sort_order() {
    let set = set(&[
        Register::float(9),
        Register::int_(2),
        Register::ref_(4),
        Register::float(1),
        Register::int_(0),
    ]);
    let (live_i, live_r, live_f) = liveness_triple(&set);
    assert_eq!(live_i, vec![0u8, 2u8]);
    assert_eq!(live_r, vec![4u8]);
    assert_eq!(live_f, vec![1u8, 9u8]);
}

#[test]
fn liveness_triple_empty_when_set_is_empty() {
    let set: OrdSet<Register> = OrdSet::new();
    assert_eq!(liveness_triple(&set), (Vec::new(), Vec::new(), Vec::new()));
}

#[test]
fn a_triple_of_reads_keeps_their_order() {
    let reads = [Register::int_(9), Register::ref_(2), Register::int_(4)];
    assert_eq!(liveness_triple_from_reads(&reads), (vec![9u8, 4u8], vec![2u8], vec![]));
}

#[test]
fn a_branch_on_two_registers_reads_both() {
    let result = live(vec![
        OpMeta::live_marker(),
        OpMeta::conditional_guard_int_eq(Register::int_(1), Register::int_(2), label(3)),
        OpMeta::label_def(label(3)),
    ]);
    assert_eq!(result, vec![vec![Register::int_(1), Register::int_(2)]]);
}
