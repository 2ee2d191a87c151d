//! Lowering of interpreter source.

use majit::analysis::{expr_references_unknown_local};
use majit::arm_locals::{collect_arm_caller_locals};
use majit::ast::{canonical_path_segments, expr_single_ident, Arm, BinOp, Block, Expr, ExprAssign, ExprBinary, ExprCall, ExprCast, ExprField, ExprIf, ExprIndex, ExprKind, ExprMacro, ExprMatch, ExprMethodCall, ExprPath, ExprUnary, ExprWhile, FnArg, ItemFn, Lit, Local, LocalInit, Member, NodeId, Pat, PatIdent, PatPath, Path, PathSegment, Stmt, Type, UnOp};
use majit::body::{generate_inline_helper_jitcode_with_calls, inline_helper_param_counts, inline_helper_param_layout, try_generate_jitcode_body, try_generate_jitcode_body_parts, try_generate_jitcode_body_with_config, HelperError, HelperFailure, InlineHelperJitCode};
use majit::calls::{inline_call_parts};
use majit::companion::{helper_policy_path, inline_builder_path, inline_prebuild_path};
use majit::config::{CallPolicySpec, GreenTypeTag, LowererConfig, PolicyEntry, StateField, StateFieldKind, StateFieldsConfig};
use majit::dispatch::{find_dispatch_loop_body, lower_dispatch_body, ArmPattern, ClassifiedArm};
use majit::kinds::{Binding, BindingKind, InlineReturnKind, Register};
use majit::literal::{int_lit};
use majit::lowerer::{CallMacro, Lowerer, PrebuildItem, Reject, Taint};
use majit::markers::{liveness_prebuild};
use majit::names::{inline_method_name, slot_name, taint_message, verdict_message};
use majit::ops::{ArmBody, ControlFlowClass, InferenceFailureMode, InlineFamily, InlineShape, Instr, IntOpcode, Label, LoweredSequence, Op, OpKind, OpMeta, PatValue};
use majit::patterns::{extract_pat_literals};
use majit::policy::{CallFamily, CallPolicyKind, CallResultKind, PolicyCheck, INT_DONT_LOOK_INSIDE, INT_ELIDABLE, VOID_LOOP_INVARIANT};
use majit::policy_bytes::{check_policy, policy_byte, PolicyVerdict};
use majit::text::{NameTable};
use syn::visit::Visit;

fn expr(src: &str) -> Expr {
    Nodes::default().expr(&syn::parse_str::<syn::Expr>(src).expect("expression"))
}

fn pattern(src: &str) -> Pat {
    let e = syn::parse_str::<syn::ExprMatch>(&format!("match x {{ {src} => () }}")).expect("match");
    Nodes::default().pat(&e.arms[0].pat)
}

fn function(src: &str) -> ItemFn {
    Nodes::default().item_fn(&syn::parse_str::<syn::ItemFn>(src).expect("function"))
}

fn fn_block_from(src: &str) -> Block {
    function(&format!("fn f() {{ {src} }}")).block
}

fn source_path(src: &str) -> Path {
    path(&syn::parse_str::<syn::Path>(src).expect("path"))
}

fn policies(path: &str, spec: CallPolicySpec) -> Vec<PolicyEntry> {
    vec![PolicyEntry { segments: canonical_path_segments(&source_path(path)), spec }]
}

fn explicit(path: &str, kind: CallPolicyKind) -> Vec<PolicyEntry> {
    policies(path, CallPolicySpec::Explicit(kind))
}

fn lowerer_with(entries: &Vec<PolicyEntry>) -> Lowerer<'_> {
    Lowerer::new_with_call_policies(None, Some(entries), InferenceFailureMode::ReturnNone)
}

fn binding(reg: u16, kind: BindingKind) -> Binding {
    Binding { reg, kind, depends_on_stack: false }
}

fn bind(lowerer: &mut Lowerer, name: &str, reg: u16, kind: BindingKind) {
    lowerer.bind(name.to_string(), binding(reg, kind));
}

/// Fails with the rejection, if there was one.
fn raise(lowerer: &Lowerer) {
    if let Some(why) = lowerer.rejected {
        match why.policy() {
            Some(kind) => panic!("{} {:?}", why.message(), kind),
            None => panic!("{}", why.message()),
        }
    }
}

fn has_live_statement(lowerer: &Lowerer) -> bool {
    lowerer.statements.iter().any(|s| matches!(s, Instr::Op(Op::LivePlaceholder)))
}

// ── The dispatch loop ────────────────────────────────────────────────

fn first_match(block: &Block) -> NodeId {
    fn find_in(stmt: &Stmt) -> Option<NodeId> {
        match stmt {
            Stmt::Expr(e, _) => match &e.kind {
                ExprKind::Match(_) => Some(e.id),
                ExprKind::While(w) => w.body.stmts.iter().find_map(find_in),
                ExprKind::Loop(b) => b.stmts.iter().find_map(find_in),
                _ => None,
            },
            _ => None,
        }
    }
    block.stmts.iter().find_map(find_in).expect("no match in block")
}

#[test]
fn finds_while_body() {
    let blk = fn_block_from("while x < 10 { match op { 0 => {}, _ => {} } }");
    let m = first_match(&blk);
    assert!(find_dispatch_loop_body(&blk, m).is_some());
}

#[test]
fn finds_loop_body() {
    let blk = fn_block_from("loop { match op { 0 => {}, _ => break } }");
    let m = first_match(&blk);
    assert!(find_dispatch_loop_body(&blk, m).is_some());
}

#[test]
fn returns_none_when_no_loop() {
    let blk = fn_block_from("match op { 0 => {}, _ => {} };");
    let m = first_match(&blk);
    assert!(find_dispatch_loop_body(&blk, m).is_none());
}

// ── Locals of arms ───────────────────────────────────────────────────

fn parent_bindings(entries: &[(&str, BindingKind, u16)]) -> NameTable<Binding> {
    let mut table = NameTable::new();
    for (name, kind, reg) in entries {
        table.insert(name.to_string(), binding(*reg, *kind));
    }
    table
}

fn names(result: &[(String, Binding)]) -> Vec<String> {
    result.iter().map(|(n, _)| n.clone()).collect()
}

#[test]
fn collects_single_ident_match_in_method_call_args() {
    let bindings =
        parent_bindings(&[("pc", BindingKind::Int, 0), ("program", BindingKind::Ref, 0)]);
    let body = expr("{ program.get_operand(pc - 1) }");
    let mut collected = names(&collect_arm_caller_locals(&body, &pattern("_"), &bindings));
    collected.sort();
    assert_eq!(collected, vec!["pc".to_string(), "program".to_string()]);
}

#[test]
fn skips_field_member_idents() {
    let bindings = parent_bindings(&[("state", BindingKind::Ref, 0)]);
    let body = expr("{ state.selected }");
    let collected = names(&collect_arm_caller_locals(&body, &pattern("_"), &bindings));
    assert_eq!(collected, vec!["state".to_string()]);
}

#[test]
fn skips_method_ident_keeps_receiver_and_args() {
    let bindings = parent_bindings(&[("state", BindingKind::Ref, 0), ("v", BindingKind::Int, 0)]);
    let body = expr("{ state.push(v) }");
    let mut collected = names(&collect_arm_caller_locals(&body, &pattern("_"), &bindings));
    collected.sort();
    assert_eq!(collected, vec!["state".to_string(), "v".to_string()]);
}

#[test]
fn skips_multi_segment_paths() {
    let bindings = parent_bindings(&[("stack_add", BindingKind::Int, 0)]);
    let body = expr("{ lj::stack_add(state.selected_ref) }");
    let collected = names(&collect_arm_caller_locals(&body, &pattern("_"), &bindings));
    assert!(collected.is_empty(), "got {:?}", collected);
}

#[test]
fn local_binding_shadows_caller_scope() {
    let bindings =
        parent_bindings(&[("pc", BindingKind::Int, 0), ("program", BindingKind::Ref, 0)]);
    let body = expr("{ let value = program.get_operand(pc - 1); state.s.push(value); }");
    let mut collected = names(&collect_arm_caller_locals(&body, &pattern("_"), &bindings));
    collected.sort();
    assert_eq!(collected, vec!["pc".to_string(), "program".to_string()]);
}

#[test]
fn let_hides_a_caller_local_from_then_on() {
    let bindings = parent_bindings(&[("value", BindingKind::Int, 4)]);
    let hidden = expr("{ let value = 1; value }");
    assert!(collect_arm_caller_locals(&hidden, &pattern("_"), &bindings).is_empty());
    let seen = expr("{ let value = value; value }");
    assert_eq!(
        names(&collect_arm_caller_locals(&seen, &pattern("_"), &bindings)),
        vec!["value".to_string()]
    );
}

#[test]
fn dedupes_repeated_idents() {
    let bindings = parent_bindings(&[("pc", BindingKind::Int, 0)]);
    let body = expr("{ pc + pc + pc }");
    let collected = names(&collect_arm_caller_locals(&body, &pattern("_"), &bindings));
    assert_eq!(collected, vec!["pc".to_string()]);
}

#[test]
fn skips_idents_not_in_parent_bindings() {
    let bindings = parent_bindings(&[("pc", BindingKind::Int, 0)]);
    let body = expr("{ x + y + pc }");
    let collected = names(&collect_arm_caller_locals(&body, &pattern("_"), &bindings));
    assert_eq!(collected, vec!["pc".to_string()]);
}

#[test]
fn arm_pattern_bound_name_shadows_parent_binding() {
    let bindings = parent_bindings(&[("value", BindingKind::Int, 5), ("pc", BindingKind::Int, 0)]);
    let body = expr("{ state.s.push(value as i64); pc }");
    let collected = names(&collect_arm_caller_locals(&body, &pattern("OP_PUSH(value)"), &bindings));
    assert_eq!(collected, vec!["pc".to_string()]);
}

#[test]
fn arm_pattern_or_alternatives_share_bound_names() {
    let bindings = parent_bindings(&[("target", BindingKind::Int, 3)]);
    let body = expr("{ pc = target; }");
    let pat = pattern("OP_JMP(target) | OP_BRANCH(target)");
    let collected = names(&collect_arm_caller_locals(&body, &pat, &bindings));
    assert!(collected.is_empty(), "got {:?}", collected);
}

#[test]
fn collected_binding_carries_kind_and_reg() {
    let bindings =
        parent_bindings(&[("pc", BindingKind::Int, 7), ("program", BindingKind::Ref, 3)]);
    let body = expr("{ program.get_op(pc) }");
    let result = collect_arm_caller_locals(&body, &pattern("_"), &bindings);
    let pc = result.iter().find(|(n, _)| n == "pc").expect("pc collected");
    assert_eq!(pc.1.reg, 7);
    assert!(matches!(pc.1.kind, BindingKind::Int));
    let program = result.iter().find(|(n, _)| n == "program").expect("program collected");
    assert_eq!(program.1.reg, 3);
    assert!(matches!(program.1.kind, BindingKind::Ref));
}

// ── Patterns ─────────────────────────────────────────────────────────

#[test]
fn extract_pat_literals_single() {
    assert_eq!(extract_pat_literals(&pattern("42")), Some(vec![42]));
}

#[test]
fn extract_pat_literals_or() {
    assert_eq!(extract_pat_literals(&pattern("1 | 2 | 3")), Some(vec![1, 2, 3]));
}

#[test]
fn extract_pat_literals_wildcard_returns_none() {
    assert_eq!(extract_pat_literals(&pattern("_")), None);
}

// ── Macros ───────────────────────────────────────────────────────────

#[test]
fn append_lowered_sequence_keeps_statements_and_metadata_aligned() {
    let mut lowerer = Lowerer::new(None);
    lowerer.emit_live();
    let seq = LoweredSequence::new(
        vec![Instr::Op(Op::LoadConst(1, 42))],
        vec![OpMeta::linear(OpKind::LoadConstI, Vec::new(), Register::ints(&[1]))],
    );
    lowerer.append_lowered_sequence(seq);
    assert_eq!(lowerer.statements.len(), lowerer.op_metadata.len());
    assert!(matches!(lowerer.op_metadata[1].kind, OpKind::LoadConstI));
    assert!(matches!(lowerer.statements[1], Instr::Op(Op::LoadConst(1, 42))));
}

#[test]
fn record_known_result_metadata_reads_known_result_and_writes_nothing() {
    let entries = explicit("helper", CallPolicyKind::ElidableInt);
    let e = expr("record_known_result!(known, helper, arg)");
    let mut lowerer = lowerer_with(&entries);
    bind(&mut lowerer, "known", 0, BindingKind::Int);
    bind(&mut lowerer, "arg", 1, BindingKind::Int);

    lowerer.lower_record_known_result(&e).expect("record_known_result should lower");

    let record = lowerer
        .op_metadata
        .iter()
        .find(|m| matches!(m.kind, OpKind::RecordKnownResult))
        .expect("RecordKnownResult metadata emitted");
    assert_eq!(record.reads, Register::ints(&[0, 1]));
    assert!(record.writes.is_empty());
    let last = lowerer.op_metadata.last().expect("metadata emitted");
    assert!(matches!(last.kind, OpKind::LiveMarker));
    match &lowerer.statements[0] {
        Instr::RecordKnownResult { target, kind, result, args } => {
            assert!(!target.wrapped);
            assert_eq!(slot_name(target.slot), "ElidableCanRaise");
            assert_eq!(*kind, BindingKind::Int);
            assert_eq!(*result, 0);
            assert_eq!(*args, Register::ints(&[1]));
        }
        _ => panic!("a recorded result"),
    }
}

#[test]
fn record_known_result_cannot_raise_elidable_omits_live_marker() {
    let entries = explicit("helper", CallPolicyKind::ElidableIntCannotRaise);
    let e = expr("record_known_result!(known, helper, arg)");
    let mut lowerer = lowerer_with(&entries);
    bind(&mut lowerer, "known", 0, BindingKind::Int);
    bind(&mut lowerer, "arg", 1, BindingKind::Int);

    lowerer.lower_record_known_result(&e).expect("record_known_result should lower");

    assert_eq!(lowerer.op_metadata.len(), 1);
    assert!(matches!(lowerer.op_metadata[0].kind, OpKind::RecordKnownResult));
    match &lowerer.statements[0] {
        Instr::RecordKnownResult { target, .. } => {
            assert_eq!(slot_name(target.slot), "ElidableCannotRaise");
        }
        _ => panic!("a recorded result"),
    }
    assert!(!has_live_statement(&lowerer));
}

#[test]
fn record_known_result_inferred_policy_validates_and_conditions_live_marker() {
    let entries = policies("helper", CallPolicySpec::Infer);
    let e = expr("record_known_result!(known, helper, arg)");
    let mut lowerer = lowerer_with(&entries);
    bind(&mut lowerer, "known", 0, BindingKind::Int);
    bind(&mut lowerer, "arg", 1, BindingKind::Int);

    lowerer.lower_record_known_result(&e).expect("record_known_result should lower");

    assert_eq!(lowerer.op_metadata.len(), 2);
    assert!(matches!(lowerer.op_metadata[0].kind, OpKind::RecordKnownResult));
    assert!(lowerer.op_metadata[1].live_condition.is_some());
    match &lowerer.statements[0] {
        Instr::RecordKnownResult { target, .. } => {
            let check = target.check.expect("a run-time check");
            let verdict = check_policy(check, INT_DONT_LOOK_INSIDE);
            let message = verdict_message(check, verdict).expect("a refusal");
            assert!(message.contains("requires an elidable helper policy"));
            assert_eq!(check_policy(check, INT_ELIDABLE), PolicyVerdict::Accepted);
        }
        _ => panic!("a recorded result"),
    }
}

#[test]
#[should_panic(expected = "record_known_result! requires an elidable helper policy")]
fn record_known_result_rejects_non_elidable_policy() {
    let entries = explicit("helper", CallPolicyKind::ResidualInt);
    let e = expr("record_known_result!(known, helper, arg)");
    let mut lowerer = lowerer_with(&entries);
    bind(&mut lowerer, "known", 0, BindingKind::Int);
    bind(&mut lowerer, "arg", 1, BindingKind::Int);

    let _ = lowerer.lower_record_known_result(&e);
    raise(&lowerer);
}

#[test]
fn conditional_call_loopinvariant_omits_live_marker() {
    let entries = explicit("helper", CallPolicyKind::LoopInvariantVoid);
    let e = expr("conditional_call!(cond, helper)");
    let mut lowerer = lowerer_with(&entries);
    bind(&mut lowerer, "cond", 0, BindingKind::Int);

    lowerer.lower_conditional_call(&e).expect("conditional_call should lower");

    assert_eq!(lowerer.op_metadata.len(), 1);
    assert!(matches!(lowerer.op_metadata[0].kind, OpKind::Call));
    match &lowerer.statements[0] {
        Instr::ConditionalCall { target, .. } => {
            assert_eq!(slot_name(target.slot), "LoopInvariant");
        }
        _ => panic!("a conditional call"),
    }
    assert!(!has_live_statement(&lowerer));
}

#[test]
#[should_panic(expected = "arguments not supported for loop-invariant function")]
fn conditional_call_loopinvariant_rejects_func_args() {
    let entries = explicit("helper", CallPolicyKind::LoopInvariantVoid);
    let e = expr("conditional_call!(cond, helper, arg)");
    let mut lowerer = lowerer_with(&entries);
    bind(&mut lowerer, "cond", 0, BindingKind::Int);
    bind(&mut lowerer, "arg", 1, BindingKind::Int);

    let _ = lowerer.lower_conditional_call(&e);
    raise(&lowerer);
}

#[test]
fn conditional_call_inferred_policy_keeps_runtime_loopinvariant_arg_check() {
    let entries = policies("helper", CallPolicySpec::Infer);
    let e = expr("conditional_call!(cond, helper, arg)");
    let mut lowerer = lowerer_with(&entries);
    bind(&mut lowerer, "cond", 0, BindingKind::Int);
    bind(&mut lowerer, "arg", 1, BindingKind::Int);

    lowerer.lower_conditional_call(&e).expect("conditional_call should lower");

    assert!(lowerer.op_metadata.last().unwrap().live_condition.is_some());
    match &lowerer.statements[0] {
        Instr::ConditionalCall { target, .. } => {
            let check = target.check.expect("a run-time check");
            let verdict = check_policy(check, VOID_LOOP_INVARIANT);
            let message = verdict_message(check, verdict).expect("a refusal");
            assert!(message.contains("arguments not supported for loop-invariant function"));
        }
        _ => panic!("a conditional call"),
    }
}

#[test]
#[should_panic(expected = "conditional_call! cannot lower helper policy MayForceVoid")]
fn conditional_call_rejects_may_force_policy() {
    let entries = explicit("helper", CallPolicyKind::MayForceVoid);
    let e = expr("conditional_call!(cond, helper)");
    let mut lowerer = lowerer_with(&entries);
    bind(&mut lowerer, "cond", 0, BindingKind::Int);

    let _ = lowerer.lower_conditional_call(&e);
    raise(&lowerer);
}

#[test]
fn conditional_call_elidable_residual_policy_keeps_live_marker() {
    let entries = explicit("helper", CallPolicyKind::ResidualInt);
    let e = expr("conditional_call_elidable!(value, helper, arg)");
    let mut lowerer = lowerer_with(&entries);
    bind(&mut lowerer, "value", 0, BindingKind::Int);
    bind(&mut lowerer, "arg", 1, BindingKind::Int);

    let result = lowerer
        .lower_conditional_call_elidable(&e)
        .expect("conditional_call_elidable should lower");

    assert_eq!(result.kind, BindingKind::Int);
    let last = lowerer.op_metadata.last().expect("metadata emitted");
    assert!(matches!(last.kind, OpKind::LiveMarker));
    match &lowerer.statements[0] {
        Instr::ConditionalCallValue { target, .. } => {
            assert_eq!(slot_name(target.slot), "CanRaise");
        }
        _ => panic!("a conditional call"),
    }
    assert!(has_live_statement(&lowerer));
}

#[test]
fn promote_assign_aliases_lhs_to_promoted_arg_binding() {
    let e = expr("x = promote(y)");
    let mut lowerer = Lowerer::new(None);
    bind(&mut lowerer, "y", 7, BindingKind::Int);
    bind(&mut lowerer, "x", 1, BindingKind::Int);

    lowerer.lower_promote_stmt(&e).expect("promote assignment should lower");

    let x = lowerer.bindings.get("x").expect("x binding must exist");
    assert_eq!(x.reg, 7);
    assert!(matches!(x.kind, BindingKind::Int));
    assert!(matches!(lowerer.op_metadata[0].control, ControlFlowClass::LiveMarker));
    assert!(matches!(lowerer.op_metadata[1].kind, OpKind::GuardValue));
    assert_eq!(lowerer.op_metadata[1].reads, Register::ints(&[7]));
}

#[test]
fn liveness_prebuild_emits_parent_markers_before_inline_helpers() {
    let helper = expr("helper");
    let steps = liveness_prebuild(
        &vec![OpMeta::live_marker_with(Register::ints(&[3]), Vec::new())],
        vec![PrebuildItem::Helper(&helper)],
    );
    assert_eq!(steps.len(), 2);
    match &steps[0] {
        PrebuildItem::Triple(None, triple) => assert_eq!(triple.i, vec![3u8]),
        _ => panic!("the marker of the body comes first"),
    }
    assert!(matches!(&steps[1], PrebuildItem::Helper(_)));
}

// ── Inlined calls ────────────────────────────────────────────────────

fn inline_methods(bindings: &[Binding]) -> Vec<String> {
    let (shape, _) = inline_call_parts(&bindings.to_vec());
    vec![
        inline_method_name(shape.on_int, Some(BindingKind::Int)),
        inline_method_name(shape.on_ref, Some(BindingKind::Ref)),
        inline_method_name(shape.on_float, Some(BindingKind::Float)),
    ]
}

#[test]
fn inline_call_tokens_use_r_family_for_ref_only_args() {
    let methods = inline_methods(&[binding(0, BindingKind::Ref)]);
    assert_eq!(methods, vec!["inline_call_r_i", "inline_call_r_r", "inline_call_irf_f"]);
}

#[test]
fn inline_call_tokens_use_ir_family_when_any_int_arg_is_present() {
    let methods = inline_methods(&[binding(0, BindingKind::Ref), binding(1, BindingKind::Int)]);
    assert_eq!(methods, vec!["inline_call_ir_i", "inline_call_ir_r", "inline_call_irf_f"]);
}

#[test]
fn inline_call_tokens_use_irf_family_when_any_float_arg_is_present() {
    let methods = inline_methods(&[binding(0, BindingKind::Int), binding(1, BindingKind::Float)]);
    assert_eq!(methods, vec!["inline_call_irf_i", "inline_call_irf_r", "inline_call_irf_f"]);
}

#[test]
fn inline_call_tokens_emit_post_call_live_marker() {
    let entries = explicit("callee", CallPolicyKind::InlineInt);
    let e = expr("callee(arg)");
    let mut lowerer = lowerer_with(&entries);
    bind(&mut lowerer, "arg", 0, BindingKind::Ref);
    lowerer.lower_call_value(&e).expect("inline call should lower");
    assert!(matches!(&lowerer.statements[0], Instr::InlineCall { .. }));
    assert!(matches!(&lowerer.statements[1], Instr::Op(Op::LivePlaceholder)));
    assert!(matches!(lowerer.op_metadata[1].kind, OpKind::LiveMarker));
}

fn inlined_call<'b>(code: &'b InlineHelperJitCode<'_>) -> &'b InlineShape {
    match code.statements.iter().find(|s| matches!(s, Instr::InlineCall { .. })) {
        Some(Instr::InlineCall { shape, .. }) => shape,
        _ => panic!("an inlined call"),
    }
}

#[test]
fn inline_helper_codegen_uses_canonical_r_surface() {
    let entries = explicit("callee", CallPolicyKind::InlineInt);
    let func = function("fn outer(arg: usize) -> usize { callee(arg) }");
    let helper = match generate_inline_helper_jitcode_with_calls(&func, &entries) {
        Ok(Some(helper)) => helper,
        _ => panic!("helper should lower"),
    };
    assert_eq!(
        inline_method_name(inlined_call(&helper).on_ref, Some(BindingKind::Ref)),
        "inline_call_r_r"
    );
    assert_eq!(helper.return_kind, InlineReturnKind::Ref);
}

#[test]
fn inline_helper_codegen_uses_canonical_ir_surface() {
    let entries = explicit("callee", CallPolicyKind::InlineInt);
    let func = function("fn outer(lhs: usize, rhs: i64) -> i64 { callee(lhs, rhs) }");
    let helper = match generate_inline_helper_jitcode_with_calls(&func, &entries) {
        Ok(Some(helper)) => helper,
        _ => panic!("helper should lower"),
    };
    assert_eq!(
        inline_method_name(inlined_call(&helper).on_int, Some(BindingKind::Int)),
        "inline_call_ir_i"
    );
    assert_eq!(helper.return_kind, InlineReturnKind::Int);
}

#[test]
fn inline_helper_codegen_uses_canonical_irf_surface() {
    let entries = explicit("callee", CallPolicyKind::InlineInt);
    let func = function("fn outer(arg: f64) -> f64 { callee(arg) }");
    let helper = match generate_inline_helper_jitcode_with_calls(&func, &entries) {
        Ok(Some(helper)) => helper,
        _ => panic!("helper should lower"),
    };
    assert_eq!(
        inline_method_name(inlined_call(&helper).on_float, Some(BindingKind::Float)),
        "inline_call_irf_f"
    );
    assert_eq!(helper.return_kind, InlineReturnKind::Float);
}

const DENSE_HELPER: &str =
    "fn helper(ptr: usize, value: i64, scale: f64, other: usize, more: i64) -> i64 { value + more }";

#[test]
fn inline_helper_param_layout_uses_dense_per_kind_banks() {
    let layout = inline_helper_param_layout(&function(DENSE_HELPER)).expect("layout should build");
    assert_eq!(
        layout,
        vec![
            (InlineReturnKind::Ref, 0),
            (InlineReturnKind::Int, 0),
            (InlineReturnKind::Float, 0),
            (InlineReturnKind::Ref, 1),
            (InlineReturnKind::Int, 1),
        ]
    );
}

#[test]
fn inline_helper_param_counts_match_dense_layout() {
    let counts = inline_helper_param_counts(&function(DENSE_HELPER)).expect("counts should build");
    assert_eq!(counts, (2, 2, 1));
}

#[test]
fn explicit_inline_ref_policy_sets_ref_binding_kind() {
    let entries = explicit("callee", CallPolicyKind::InlineRef);
    let call = expr("callee()");
    let mut lowerer =
        Lowerer::new_with_call_policies(None, Some(&entries), InferenceFailureMode::Panic);
    let result = lowerer.lower_call_value(&call).expect("inline ref call should lower");
    assert!(matches!(result.kind, BindingKind::Ref));
    assert!(matches!(&lowerer.statements[0], Instr::InlineCall { .. }));
}

#[test]
fn explicit_inline_float_policy_sets_float_binding_kind() {
    let entries = explicit("callee", CallPolicyKind::InlineFloat);
    let call = expr("callee()");
    let mut lowerer =
        Lowerer::new_with_call_policies(None, Some(&entries), InferenceFailureMode::Panic);
    let result = lowerer.lower_call_value(&call).expect("inline float call should lower");
    assert!(matches!(result.kind, BindingKind::Float));
    assert!(matches!(&lowerer.statements[0], Instr::InlineCall { .. }));
}

#[test]
fn helpers_that_cannot_be_inlined_are_errors() {
    let cases = [
        ("fn f<T>(x: i64) -> i64 { x }", HelperError::Generic),
        ("fn f(x: i64) { }", HelperError::NoReturnType),
        ("fn f(x: i64) -> String { x }", HelperError::ReturnType),
        ("fn f(self) -> i64 { 1 }", HelperError::Receiver),
        ("fn f(x: String) -> i64 { 1 }", HelperError::ParameterType),
        ("fn f((x, y): i64) -> i64 { 1 }", HelperError::ParameterPattern),
    ];
    for (source, expected) in cases {
        let func = function(source);
        let entries = Vec::new();
        match generate_inline_helper_jitcode_with_calls(&func, &entries) {
            Err(HelperFailure::Error(why)) => assert_eq!(why, expected),
            _ => panic!("{source} should be refused"),
        }
    }
}

// ── Bodies ───────────────────────────────────────────────────────────

fn plain_config() -> LowererConfig {
    let scalars = StateFieldsConfig {
        fields: vec![
            StateField { name: "a".to_string(), kind: StateFieldKind::Scalar },
            StateField { name: "stack".to_string(), kind: StateFieldKind::Array },
        ],
    };
    LowererConfig::new(
        &Vec::new(),
        &Vec::new(),
        false,
        None,
        Some(&scalars),
        Vec::new(),
        Vec::new(),
        Vec::new(),
        &"State".to_string(),
        &"Program".to_string(),
    )
}

#[test]
fn state_field_update_loads_adds_and_stores() {
    let config = plain_config();
    let body = expr("{ state.a += 5; }");
    let statements = match try_generate_jitcode_body_with_config(&config, &body) {
        Ok(Some(statements)) => statements,
        _ => panic!("body should lower"),
    };
    assert_eq!(statements.len(), 4);
    assert!(matches!(statements[0], Instr::Op(Op::LoadStateField(0, 0))));
    assert!(matches!(statements[1], Instr::Op(Op::LoadConst(1, 5))));
    assert!(matches!(statements[2], Instr::Op(Op::Binop(2, IntOpcode::IntAdd, 0, 1))));
    assert!(matches!(statements[3], Instr::Op(Op::StoreStateField(0, 2))));
}

#[test]
fn an_empty_block_is_no_body() {
    let body = expr("{ }");
    assert!(matches!(try_generate_jitcode_body(&body), Ok(None)));
}

#[test]
fn a_for_loop_cannot_be_lowered() {
    let body = expr("{ for i in 0..10 { } }");
    assert!(matches!(try_generate_jitcode_body(&body), Ok(None)));
}

#[test]
fn if_with_branches_marks_what_is_live() {
    let body = expr("{ let c = 1; let x = 2; let y = if c { x } else { 3 }; promote(y); }");
    let parts = match try_generate_jitcode_body_parts(&body, None) {
        Ok(Some(parts)) => parts,
        _ => panic!("body should lower"),
    };
    let triples: Vec<Vec<u8>> = parts
        .statements
        .iter()
        .filter_map(|s| match s {
            Instr::Live { triple, .. } => Some(triple.i.clone()),
            _ => None,
        })
        .collect();
    // Before the branch the condition and `x` are alive, before the guard `y`.
    assert_eq!(triples, vec![vec![0u8, 1u8], vec![2u8]]);
    assert_eq!(parts.liveness_prebuild.len(), 2);
}

#[test]
fn a_register_beyond_a_byte_rejects_the_body() {
    let mut source = String::from("{ ");
    for i in 0..257 {
        source.push_str(&format!("let v{i} = {i}; "));
    }
    source.push_str("}");
    let body = expr(&source);
    assert!(matches!(
        try_generate_jitcode_body(&body),
        Err(Reject::RegisterIndex(256))
    ));
}

#[test]
fn a_literal_has_its_value() {
    assert!(matches!(int_lit("42"), Lit::Int(Some(42))));
    assert!(matches!(int_lit("0x10"), Lit::Int(Some(16))));
    assert!(matches!(int_lit("1_000i64"), Lit::Int(Some(1000))));
    assert!(matches!(int_lit("99999999999999999999"), Lit::Int(None)));
    assert!(matches!(int_lit("not a number"), Lit::Int(None)));
}

#[test]
fn a_literal_is_read_in_its_base_and_with_its_sign() {
    assert!(matches!(int_lit("0xfF_u8"), Lit::Int(Some(255))));
    assert!(matches!(int_lit("0o17"), Lit::Int(Some(15))));
    assert!(matches!(int_lit("0b1_01"), Lit::Int(Some(5))));
    assert!(matches!(int_lit("0x_1e"), Lit::Int(Some(30))));
    assert!(matches!(int_lit("-5"), Lit::Int(Some(-5))));
    assert!(matches!(int_lit("9223372036854775807"), Lit::Int(Some(i64::MAX))));
    assert!(matches!(int_lit("9223372036854775808"), Lit::Int(None)));
    assert!(matches!(int_lit("-9223372036854775808"), Lit::Int(Some(i64::MIN))));
    assert!(matches!(int_lit("1f32"), Lit::Int(Some(1))));
}

#[test]
fn any_word_can_be_a_suffix() {
    assert!(matches!(int_lit("0b1e5"), Lit::Int(Some(1))));
    assert!(matches!(int_lit("0o17E"), Lit::Int(Some(15))));
    assert!(matches!(int_lit("1\u{e9}"), Lit::Int(Some(1))));
    assert!(matches!(int_lit("12em"), Lit::Int(Some(12))));
    assert!(matches!(int_lit("3e_x5"), Lit::Int(Some(3))));
    assert!(matches!(int_lit("1e_5"), Lit::Int(None)));
    assert!(matches!(int_lit("1E5x"), Lit::Int(None)));
}

#[test]
fn what_is_no_integer_literal_has_no_value() {
    for text in ["", "-", "_1", "0x", "0b12", "0o8", "1.5", "1e3", "1 2", "(1)", "[[1]]"] {
        assert!(matches!(int_lit(text), Lit::Int(None)));
    }
}

#[test]
fn a_path_with_generics_is_no_single_identifier() {
    assert_eq!(expr_single_ident(&expr("foo")).map(|s| s.as_str()), Some("foo"));
    assert!(expr_single_ident(&expr("foo::<u8>")).is_none());
    assert!(expr_single_ident(&expr("a::foo")).is_none());
    assert!(expr_single_ident(&expr("::foo")).is_none());
    assert!(expr_single_ident(&expr("foo()")).is_none());
}

#[test]
fn a_path_without_a_policy_has_the_inferred_one() {
    let lowerer = Lowerer::new(None);
    let inferred = CallPolicyKind::ResidualVoidWrapped;
    assert_eq!(
        lowerer.cond_call_policy_or_inferred_default(
            &expr("helper"),
            CallMacro::ConditionalCall,
            inferred
        ),
        Ok((inferred, true))
    );
    assert_eq!(
        lowerer.cond_call_policy_or_inferred_default(
            &expr("helper()"),
            CallMacro::ConditionalCall,
            inferred
        ),
        Err(Reject::UnresolvedPolicy(CallMacro::ConditionalCall))
    );
    let entries = explicit("helper", CallPolicyKind::LoopInvariantVoid);
    assert_eq!(
        lowerer_with(&entries).cond_call_policy_or_inferred_default(
            &expr("helper"),
            CallMacro::ConditionalCall,
            inferred
        ),
        Ok((CallPolicyKind::LoopInvariantVoid, false))
    );
    let mut lowerer = Lowerer::new(None);
    bind(&mut lowerer, "cond", 0, BindingKind::Int);
    bind(&mut lowerer, "arg", 1, BindingKind::Int);
    let e = expr("conditional_call!(cond, helper, arg)");
    assert!(lowerer.lower_conditional_call(&e).is_some());
    assert_eq!(lowerer.rejected, None);
}

#[test]
fn a_raw_callee_has_a_plain_companion() {
    let policy = helper_policy_path(&expr("a::r#match")).expect("a companion");
    assert_eq!(
        canonical_path_segments(&policy),
        vec!["a".to_string(), "__majit_call_policy_match".to_string()]
    );
    let builder = inline_builder_path(&expr("helper")).expect("a companion");
    assert_eq!(
        canonical_path_segments(&builder),
        vec!["__majit_inline_jitcode_helper_with_asm".to_string()]
    );
    let prebuild = inline_prebuild_path(&expr("helper")).expect("a companion");
    assert_eq!(
        canonical_path_segments(&prebuild),
        vec!["__majit_inline_jitcode_helper_prebuild".to_string()]
    );
    assert!(helper_policy_path(&expr("f()")).is_none());
}

#[test]
fn foreign_names_keep_a_let_from_being_a_constant() {
    let config = plain_config();
    // An uppercase name is a constant of the program; a lowercase one is not in
    // scope where the trace is built.
    let constant = expr("{ let v = LIMIT.max(1); state.a = v; }");
    assert!(matches!(
        try_generate_jitcode_body_with_config(&config, &constant),
        Ok(Some(_))
    ));
    let foreign = expr("{ let v = limit.max(1); state.a = v; }");
    assert!(matches!(try_generate_jitcode_body_with_config(&config, &foreign), Ok(None)));
}

#[test]
fn an_underscore_alone_does_not_make_a_name_a_constant() {
    let config = plain_config();
    for (name, is_constant) in [("_LIMIT", true), ("_limit", false), ("__LIMIT", false)] {
        let body = expr(&format!("{{ let v = {name}.max(1); state.a = v; }}"));
        let lowered = try_generate_jitcode_body_with_config(&config, &body);
        assert_eq!(matches!(lowered, Ok(Some(_))), is_constant);
    }
    assert!(expr_references_unknown_local(&expr("_tmp")));
    assert!(expr_references_unknown_local(&expr("stackok")));
    assert!(!expr_references_unknown_local(&expr("_TMP")));
    assert!(!expr_references_unknown_local(&expr("OP_MOV")));
    assert!(!expr_references_unknown_local(&expr("__op")));
    assert!(!expr_references_unknown_local(&expr("a::b")));
}

/// What the registers hold behind code that runs with `x` in register 0, and the
/// constants of at least 100 that it loads.
fn run_with(stmts: &[majit::ops::Stmt], x: i64) -> ([i64; 256], Vec<i64>) {
    let target = |label: Label| {
        stmts
            .iter()
            .position(|s| matches!(s, Instr::Op(Op::MarkLabel(l)) if *l == label))
            .expect("a label")
    };
    let mut regs = [0i64; 256];
    regs[0] = x;
    let mut loaded = Vec::new();
    let mut pc = 0;
    while pc < stmts.len() {
        match &stmts[pc] {
            Instr::Op(Op::LoadConst(c, v)) => {
                regs[*c as usize] = *v;
                if *v >= 100 {
                    loaded.push(*v);
                }
                pc += 1;
            }
            Instr::Op(Op::MoveI(dst, src)) => {
                regs[*dst as usize] = regs[*src as usize];
                pc += 1;
            }
            Instr::Op(Op::Binop(dst, IntOpcode::IntEq, a, b)) => {
                regs[*dst as usize] = (regs[*a as usize] == regs[*b as usize]) as i64;
                pc += 1;
            }
            Instr::Op(Op::Binop(dst, IntOpcode::IntOr, a, b)) => {
                regs[*dst as usize] = regs[*a as usize] | regs[*b as usize];
                pc += 1;
            }
            Instr::Op(Op::GotoIfNotIntIsTrue(r, l)) => {
                pc = if regs[*r as usize] != 0 { pc + 1 } else { target(*l) };
            }
            Instr::Op(Op::Jump(l)) => pc = target(*l),
            _ => pc += 1,
        }
    }
    (regs, loaded)
}

fn loaded_for(source: &str, x: i64) -> Vec<i64> {
    let e = expr(source);
    let mut lowerer = Lowerer::new(None);
    lowerer.next_reg = 1;
    bind(&mut lowerer, "x", 0, BindingKind::Int);
    assert!(lowerer.lower_match_stmt(&e).is_some());
    run_with(&lowerer.statements, x).1
}

#[test]
fn a_match_arm_runs_for_its_literals() {
    let source = "match x { 1 | 4 | 9 => { let y = 100; } 7 => { let y = 200; } \
         4 => { let y = 400; } _ => { let y = 300; } }";
    for x in [1, 4, 9] {
        assert_eq!(loaded_for(source, x), vec![100]);
    }
    assert_eq!(loaded_for(source, 7), vec![200]);
    assert_eq!(loaded_for(source, 5), vec![300]);
    // Without a default arm nothing runs; of two, the last one does.
    assert!(loaded_for("match x { 1 => { let y = 100; } }", 5).is_empty());
    assert_eq!(
        loaded_for("match x { _ => { let y = 100; } other => { let y = 200; } }", 5),
        vec![200]
    );
}

#[test]
fn a_match_has_the_value_of_the_chosen_arm() {
    let e = expr("match x { 1 | 4 => 100, 7 => match x { 7 => 200, _ => 201 }, _ => 300 }");
    let mut lowerer = Lowerer::new(None);
    lowerer.next_reg = 1;
    bind(&mut lowerer, "x", 0, BindingKind::Int);
    let value = lowerer.lower_match_value(&e).expect("a value");
    for (x, expected) in [(1, 100), (4, 100), (7, 200), (5, 300)] {
        let (regs, _) = run_with(&lowerer.statements, x);
        assert_eq!(regs[value.reg as usize], expected);
        assert_eq!(regs[0], x);
    }
}

// ── Dispatch ─────────────────────────────────────────────────────────

const DISPATCH: &str = "while pc < 10 { jit_merge_point!(); let opcode = program[pc]; pc += 1; \
     match opcode { 0 => { state.a += 1; } OP_TWO | OP_THREE => { state.a = pc; } _ => break } } state.a";

fn dispatch_arms() -> Vec<ClassifiedArm> {
    vec![
        ClassifiedArm {
            pat: pattern("0"),
            pattern: ArmPattern::Lowerable,
            original_body: expr("{ state.a += 1; }"),
        },
        ClassifiedArm {
            pat: pattern("OP_TWO | OP_THREE"),
            pattern: ArmPattern::Lowerable,
            original_body: expr("{ state.a = pc; }"),
        },
        ClassifiedArm {
            pat: pattern("7"),
            pattern: ArmPattern::Halt,
            original_body: expr("return"),
        },
        ClassifiedArm {
            pat: pattern("_"),
            pattern: ArmPattern::Nop,
            original_body: expr("break"),
        },
    ]
}

#[test]
fn dispatch_body_tests_each_arm_and_returns() {
    let config = plain_config();
    let block = fn_block_from(DISPATCH);
    let id = first_match(&block);
    let arms = dispatch_arms();
    let body = match lower_dispatch_body(&config, &block, Some(id), &arms) {
        Ok(Some(body)) => body,
        _ => panic!("dispatch should lower"),
    };
    let stmts = &body.statements;
    assert!(matches!(stmts[0], Instr::Op(Op::NewLabel(Label { id: 0 }))));
    assert!(matches!(stmts[1], Instr::Op(Op::MarkLabel(Label { id: 0 }))));
    let merge = stmts
        .iter()
        .find_map(|s| match s {
            Instr::JitMergePoint { greens, reds } => Some((greens, reds)),
            _ => None,
        })
        .expect("a merge point");
    assert!(merge.0.i.is_empty() && merge.0.r.is_empty() && merge.0.f.is_empty());
    assert_eq!(merge.1.i, vec![0u8]);
    assert_eq!(merge.1.r, vec![0u8]);
    assert!(merge.1.f.is_empty());
    // The opcode is fetched into register 1, and `pc` advances in place.
    assert!(stmts.iter().any(|s| matches!(s, Instr::Op(Op::GetarrayitemGcI(1, 0, 0)))));
    assert!(stmts
        .iter()
        .any(|s| matches!(s, Instr::Op(Op::Binop(0, IntOpcode::IntAdd, 0, 2)))));
    let calls: Vec<(ArmBody, InlineFamily)> = stmts
        .iter()
        .filter_map(|s| match s {
            Instr::ArmCall { body, family, .. } => Some((*body, *family)),
            _ => None,
        })
        .collect();
    assert_eq!(
        calls,
        vec![
            (ArmBody::Lowered(0), InlineFamily::R),
            (ArmBody::Lowered(1), InlineFamily::Ir),
            (ArmBody::AbortPermanent, InlineFamily::R),
        ]
    );
    assert_eq!(body.arm_bodies.len(), 2);
    let tests = stmts
        .iter()
        .filter(|s| matches!(s, Instr::Op(Op::GotoIfNotIntEq(1, _, _))))
        .count();
    assert_eq!(tests, 4);
    assert!(matches!(
        stmts[stmts.len() - 1],
        Instr::Op(Op::Return(BindingKind::Int, _))
    ));
    assert!(body.green_schema.is_empty());
    assert_eq!(
        body.red_schema,
        vec![
            ("pc".to_string(), GreenTypeTag::Int),
            ("program".to_string(), GreenTypeTag::Ref)
        ]
    );
}

/// The arm that the chain calls for an opcode in register 1, if it calls one.
fn arm_called(config: &LowererConfig, opcode: i64) -> Option<ArmBody> {
    let block = fn_block_from(DISPATCH);
    let id = first_match(&block);
    let mut arms = dispatch_arms();
    // The first arm's value once more: it is never reached.
    arms.insert(
        1,
        ClassifiedArm {
            pat: pattern("0"),
            pattern: ArmPattern::Unsupported,
            original_body: expr("()"),
        },
    );
    let body = match lower_dispatch_body(config, &block, Some(id), &arms) {
        Ok(Some(body)) => body,
        _ => panic!("dispatch should lower"),
    };
    let stmts = &body.statements;
    let target = |label: Label| {
        stmts
            .iter()
            .position(|s| matches!(s, Instr::Op(Op::MarkLabel(l)) if *l == label))
            .expect("a label")
    };
    let mut regs = [0i64; 256];
    regs[1] = opcode;
    let mut pc = stmts
        .iter()
        .position(|s| matches!(s, Instr::Op(Op::LoadPatValue(_, _))))
        .expect("a test");
    loop {
        match &stmts[pc] {
            Instr::ArmCall { body, .. } => return Some(*body),
            Instr::Op(Op::LoadPatValue(c, v)) => {
                regs[*c as usize] = match v {
                    PatValue::Int(n) => *n,
                    PatValue::Ident(name) if name.as_str() == "OP_TWO" => 2,
                    PatValue::Ident(name) if name.as_str() == "OP_THREE" => 3,
                    _ => panic!("an unknown constant"),
                };
                pc += 1;
            }
            Instr::Op(Op::GotoIfNotIntEq(a, b, l)) => {
                pc = if regs[*a as usize] == regs[*b as usize] { pc + 1 } else { target(*l) };
            }
            Instr::Op(Op::Jump(l)) => pc = target(*l),
            Instr::Op(Op::NewLabel(_)) | Instr::Op(Op::MarkLabel(_)) => pc += 1,
            _ => return None,
        }
    }
}

#[test]
fn the_first_arm_with_the_opcode_is_called() {
    let config = plain_config();
    assert_eq!(arm_called(&config, 0), Some(ArmBody::Lowered(0)));
    assert_eq!(arm_called(&config, 2), Some(ArmBody::Lowered(1)));
    assert_eq!(arm_called(&config, 3), Some(ArmBody::Lowered(1)));
    assert_eq!(arm_called(&config, 7), Some(ArmBody::AbortPermanent));
    assert_eq!(arm_called(&config, 9), None);
}

#[test]
fn declared_greens_are_promoted_and_leave_the_reds() {
    let mut config = plain_config();
    config.greens = vec![expr("pc"), expr("program")];
    config.green_type_tags = vec![None, Some(GreenTypeTag::Str)];
    let block = fn_block_from(DISPATCH);
    let id = first_match(&block);
    let arms = Vec::new();
    let body = match lower_dispatch_body(&config, &block, Some(id), &arms) {
        Ok(Some(body)) => body,
        _ => panic!("dispatch should lower"),
    };
    assert!(body
        .statements
        .iter()
        .any(|s| matches!(s, Instr::Op(Op::GuardValue(BindingKind::Int, 0)))));
    assert!(body
        .statements
        .iter()
        .any(|s| matches!(s, Instr::Op(Op::GuardValue(BindingKind::Ref, 0)))));
    assert_eq!(
        body.green_schema,
        vec![
            ("pc".to_string(), GreenTypeTag::Int),
            ("program".to_string(), GreenTypeTag::Str)
        ]
    );
    assert!(body.red_schema.is_empty());
}

fn dispatch_rejection(config: &LowererConfig) -> Option<Reject> {
    let block = fn_block_from(DISPATCH);
    let id = first_match(&block);
    let arms = Vec::new();
    match lower_dispatch_body(config, &block, Some(id), &arms) {
        Err(why) => Some(why),
        Ok(_) => None,
    }
}

#[test]
fn malformed_greens_and_reds_are_rejected() {
    let with_greens = |greens: Vec<&str>| {
        let mut config = plain_config();
        config.greens = greens.into_iter().map(expr).collect();
        dispatch_rejection(&config)
    };
    assert_eq!(with_greens(vec!["state.pc"]), Some(Reject::GreenNotIdent));
    assert_eq!(with_greens(vec!["missing"]), Some(Reject::GreenUnbound));
    assert_eq!(with_greens(vec!["pc", "pc"]), Some(Reject::DuplicateGreen(0)));
    assert_eq!(with_greens(vec!["program", "pc"]), Some(Reject::GreenOrder));
    let with_reds = |reds: Vec<&str>| {
        let mut config = plain_config();
        config.reds = reds.into_iter().map(expr).collect();
        dispatch_rejection(&config)
    };
    assert_eq!(with_reds(vec!["state.pc"]), Some(Reject::RedNotIdent));
    assert_eq!(with_reds(vec!["missing"]), Some(Reject::RedUnbound));
    assert_eq!(with_reds(vec!["pc", "pc"]), Some(Reject::DuplicateRed(0)));
    assert_eq!(with_reds(vec!["program", "pc"]), Some(Reject::RedOrder));
    assert_eq!(with_reds(vec!["pc", "program"]), None);
}

const EXTENDED: &str = "while pc < 10 { jit_merge_point!(); let opcode = program[pc]; \
     let oparg = program[pc + 1] as i64; pc += 2; \
     while opcode == EXTENDED_ARG { let opcode2 = program[pc]; let arg2 = program[pc + 1]; \
       if opcode2 < HAVE_ARGUMENT { panic!(\"corrupt\"); } pc += 2; \
       oparg = (oparg * 256) | arg2 as i64; opcode = opcode2; } \
     match opcode { 0 => {} _ => break } }";

#[test]
fn extended_arguments_are_collected_in_an_inner_loop() {
    let config = plain_config();
    let block = fn_block_from(EXTENDED);
    let id = first_match(&block);
    let arms = Vec::new();
    let body = match lower_dispatch_body(&config, &block, Some(id), &arms) {
        Ok(Some(body)) => body,
        _ => panic!("dispatch should lower"),
    };
    let has = |f: &dyn Fn(&Op) -> bool| {
        body.statements.iter().any(|s| match s {
            Instr::Op(op) => f(op),
            _ => false,
        })
    };
    assert!(has(&|op| matches!(op, Op::LoadNamedConst(_, name) if *name == "EXTENDED_ARG")));
    assert!(has(&|op| matches!(op, Op::LoadNamedConst(_, name) if *name == "HAVE_ARGUMENT")));
    assert!(has(&|op| matches!(op, Op::GotoIfNotIntLt(1, _, _))));
    assert!(has(&|op| matches!(op, Op::Abort)));
    assert!(has(&|op| matches!(op, Op::LoadConst(_, 256))));
    assert!(has(&|op| matches!(op, Op::Binop(_, IntOpcode::IntMul, _, _))));
    assert!(has(&|op| matches!(op, Op::Binop(_, IntOpcode::IntOr, _, _))));
    // The inner fetch goes to the register of the outer opcode.
    assert_eq!(
        body.statements
            .iter()
            .filter(|s| matches!(s, Instr::Op(Op::GetarrayitemGcI(1, _, _))))
            .count(),
        2
    );
}

#[test]
fn an_inner_loop_that_is_not_understood_taints_the_dispatch() {
    let config = plain_config();
    for inner in ["while opcode < LIMIT { pc += 1; }", "while opcode == LIMIT { other(); }"] {
        let source = format!(
            "while pc < 10 {{ jit_merge_point!(); let opcode = program[pc]; {inner} \
             match opcode {{ 0 => {{}} _ => break }} }}"
        );
        let block = fn_block_from(&source);
        let id = first_match(&block);
        let arms = Vec::new();
        assert!(matches!(
            lower_dispatch_body(&config, &block, Some(id), &arms),
            Ok(None)
        ));
    }
    assert_eq!(
        taint_message(Taint::InnerLoopShape),
        "inner loop condition is not a comparison of two names"
    );
}

// ── Growth ───────────────────────────────────────────────────────────

#[test]
fn lowering_keeps_statements_beside_descriptions() {
    let body = expr(
        "{ let a = 1; let b = if a == 1 { a + 2 } else { 3 }; \
           while b < 10 { if a == 2 { break; } } match b { 1 | 2 => { promote(a); } _ => { } } }",
    );
    let mut lowerer = Lowerer::new(None);
    let stmts = match &body.kind {
        ExprKind::Block(b) => &b.stmts,
        _ => panic!("a block"),
    };
    let mut before = 0;
    for stmt in stmts {
        lowerer.lower_stmt(stmt).expect("statement should lower");
        assert_eq!(lowerer.statements.len(), lowerer.op_metadata.len());
        assert!(lowerer.statements.len() >= before);
        before = lowerer.statements.len();
    }
    assert!(lowerer
        .op_metadata
        .iter()
        .filter(|m| {
            matches!(m.control, ControlFlowClass::LabelDef | ControlFlowClass::UnconditionalJump)
        })
        .all(|m| m.target_label.is_some()));
}

#[test]
fn the_first_rejection_stays() {
    let mut lowerer = Lowerer::new(None);
    lowerer.reject(Reject::RegisterIndex(300));
    lowerer.reject(Reject::GreenOrder);
    assert_eq!(lowerer.rejected, Some(Reject::RegisterIndex(300)));
}

#[test]
fn declared_and_inferred_policies_agree() {
    let cases = [
        (CallPolicyKind::ResidualVoid, CallFamily::Residual, CallResultKind::Void),
        (CallPolicyKind::LoopInvariantVoid, CallFamily::LoopInvariant, CallResultKind::Void),
        (CallPolicyKind::MayForceVoid, CallFamily::MayForce, CallResultKind::Void),
        (CallPolicyKind::ElidableInt, CallFamily::Pure, CallResultKind::Int),
    ];
    let e = expr("conditional_call!(cond, helper, arg)");
    for (kind, family, result) in cases {
        let entries = explicit("helper", kind);
        let mut lowerer = lowerer_with(&entries);
        bind(&mut lowerer, "cond", 0, BindingKind::Int);
        bind(&mut lowerer, "arg", 1, BindingKind::Int);
        let taken = lowerer.lower_conditional_call(&e).is_some();
        let check = PolicyCheck::ConditionalCall { args_empty: false };
        let accepted =
            check_policy(check, policy_byte(family, result)) == PolicyVerdict::Accepted;
        assert_eq!(taken, accepted);
        assert_eq!(taken, lowerer.rejected.is_none());
    }
}

#[test]
fn a_branch_forgets_its_names() {
    let e = expr("if c { let inner = 1; inner } else { 2 }");
    let mut lowerer = Lowerer::new(None);
    bind(&mut lowerer, "c", 0, BindingKind::Int);
    lowerer.next_reg = 1;
    assert!(lowerer.lower_value_expr(&e).is_some());
    assert!(lowerer.bindings.get("c").is_some());
    assert!(lowerer.bindings.get("inner").is_none());
}

// ── Source to trees ──────────────────────────────────────────────────

/// Numbers the nodes of parsed source.
#[derive(Default)]
struct Nodes {
    count: NodeId,
}

impl Nodes {
    fn add(&mut self) -> NodeId {
        self.count += 1;
        self.count
    }

    fn exprs<'a>(&mut self, v: impl IntoIterator<Item = &'a syn::Expr>) -> Vec<Expr> {
        v.into_iter().map(|e| self.expr(e)).collect()
    }

    fn boxed(&mut self, e: &syn::Expr) -> Box<Expr> {
        Box::new(self.expr(e))
    }

    fn expr(&mut self, e: &syn::Expr) -> Expr {
        let id = self.add();
        let kind = match e {
            syn::Expr::Lit(x) => ExprKind::Lit(lit(&x.lit)),
            syn::Expr::Path(x) => ExprKind::Path(expr_path(x)),
            syn::Expr::Cast(x) => ExprKind::Cast(ExprCast {
                expr: self.boxed(&x.expr),
                ty: ty(&x.ty),
                ty_exprs: self.children(|c| c.visit_type(&x.ty)),
            }),
            syn::Expr::Paren(x) => ExprKind::Paren(self.boxed(&x.expr)),
            syn::Expr::Reference(x) => ExprKind::Reference(self.boxed(&x.expr)),
            syn::Expr::If(x) => ExprKind::If(ExprIf {
                cond: self.boxed(&x.cond),
                then_branch: self.block(&x.then_branch),
                else_branch: x.else_branch.as_ref().map(|(_, e)| self.boxed(e)),
            }),
            syn::Expr::Match(x) => ExprKind::Match(ExprMatch {
                expr: self.boxed(&x.expr),
                arms: x.arms.iter().map(|a| self.arm(a)).collect(),
            }),
            syn::Expr::Unary(x) => match unop(&x.op) {
                Some(op) => ExprKind::Unary(ExprUnary { op, expr: self.boxed(&x.expr) }),
                None => ExprKind::Other(self.exprs([&*x.expr])),
            },
            syn::Expr::Binary(x) => match binop(&x.op) {
                Some(op) => ExprKind::Binary(ExprBinary {
                    op,
                    left: self.boxed(&x.left),
                    right: self.boxed(&x.right),
                }),
                None => ExprKind::Other(self.exprs([&*x.left, &*x.right])),
            },
            syn::Expr::Assign(x) => ExprKind::Assign(ExprAssign {
                left: self.boxed(&x.left),
                right: self.boxed(&x.right),
            }),
            syn::Expr::Call(x) => ExprKind::Call(ExprCall {
                func: self.boxed(&x.func),
                args: self.exprs(&x.args),
            }),
            syn::Expr::MethodCall(x) => ExprKind::MethodCall(ExprMethodCall {
                receiver: self.boxed(&x.receiver),
                method: x.method.to_string(),
                args: self.exprs(&x.args),
            }),
            syn::Expr::Field(x) => ExprKind::Field(ExprField {
                base: self.boxed(&x.base),
                member: match &x.member {
                    syn::Member::Named(name) => Member::Named(name.to_string()),
                    syn::Member::Unnamed(index) => Member::Unnamed(index.index.to_string()),
                },
            }),
            syn::Expr::Index(x) => ExprKind::Index(ExprIndex {
                expr: self.boxed(&x.expr),
                index: self.boxed(&x.index),
            }),
            syn::Expr::Block(x) => ExprKind::Block(self.block(&x.block)),
            syn::Expr::While(x) => ExprKind::While(ExprWhile {
                cond: self.boxed(&x.cond),
                body: self.block(&x.body),
            }),
            syn::Expr::Loop(x) => ExprKind::Loop(self.block(&x.body)),
            syn::Expr::ForLoop(_) => ExprKind::ForLoop(self.parts(e)),
            syn::Expr::Break(_) => ExprKind::Break(self.parts(e)),
            syn::Expr::Continue(_) => ExprKind::Continue,
            syn::Expr::Try(x) => ExprKind::Try(self.boxed(&x.expr)),
            syn::Expr::Macro(x) => ExprKind::Macro(ExprMacro {
                path: path(&x.mac.path),
                single: syn::parse2::<syn::Expr>(x.mac.tokens.clone())
                    .ok()
                    .map(|e| self.boxed(&e)),
                list: x
                    .mac
                    .parse_body_with(
                        syn::punctuated::Punctuated::<syn::Expr, syn::token::Comma>::parse_terminated,
                    )
                    .ok()
                    .map(|list| self.exprs(&list)),
            }),
            _ => ExprKind::Other(self.parts(e)),
        };
        Expr { id, kind }
    }

    /// The expressions right below one of a form that lowering does not tell
    /// apart.
    fn parts(&mut self, e: &syn::Expr) -> Vec<Expr> {
        self.children(|c| syn::visit::visit_expr(c, e))
    }

    fn children(&mut self, visit: impl FnOnce(&mut Children)) -> Vec<Expr> {
        let mut found = Children::default();
        visit(&mut found);
        self.exprs(&found.exprs)
    }

    fn block(&mut self, b: &syn::Block) -> Block {
        Block { stmts: b.stmts.iter().map(|s| self.stmt(s)).collect() }
    }

    fn stmt(&mut self, s: &syn::Stmt) -> Stmt {
        match s {
            syn::Stmt::Local(l) => Stmt::Local(Local {
                pat: self.pat(&l.pat),
                init: l.init.as_ref().map(|init| LocalInit {
                    expr: self.boxed(&init.expr),
                    diverge: init.diverge.as_ref().map(|(_, e)| self.boxed(e)),
                }),
            }),
            syn::Stmt::Item(item) => Stmt::Item(self.children(|c| c.visit_item(item))),
            syn::Stmt::Expr(e, semi) => Stmt::Expr(self.expr(e), semi.is_some()),
            syn::Stmt::Macro(m) => Stmt::Macro(path(&m.mac.path)),
        }
    }

    fn arm(&mut self, a: &syn::Arm) -> Arm {
        Arm {
            pat: self.pat(&a.pat),
            guard: a.guard.as_ref().map(|(_, e)| self.boxed(e)),
            body: self.boxed(&a.body),
        }
    }

    fn pats<'a>(&mut self, v: impl IntoIterator<Item = &'a syn::Pat>) -> Vec<Pat> {
        v.into_iter().map(|p| self.pat(p)).collect()
    }

    fn pat(&mut self, p: &syn::Pat) -> Pat {
        match p {
            syn::Pat::Ident(x) => Pat::Ident(PatIdent {
                ident: x.ident.to_string(),
                by_ref: x.by_ref.is_some(),
                mutability: x.mutability.is_some(),
                subpat: x.subpat.as_ref().map(|(_, p)| Box::new(self.pat(p))),
            }),
            syn::Pat::Wild(_) => Pat::Wild,
            syn::Pat::Lit(x) => Pat::Lit(lit(&x.lit)),
            syn::Pat::Path(x) => Pat::Path(PatPath { id: self.add(), path: expr_path(x) }),
            syn::Pat::Or(x) => Pat::Or(self.pats(&x.cases)),
            syn::Pat::TupleStruct(x) => Pat::TupleStruct(self.pats(&x.elems)),
            syn::Pat::Tuple(x) => Pat::Tuple(self.pats(&x.elems)),
            syn::Pat::Struct(x) => Pat::Struct(self.pats(x.fields.iter().map(|f| &*f.pat))),
            syn::Pat::Reference(x) => Pat::Reference(Box::new(self.pat(&x.pat))),
            syn::Pat::Slice(x) => Pat::Slice(self.pats(&x.elems)),
            syn::Pat::Type(x) => Pat::Type(Box::new(self.pat(&x.pat))),
            syn::Pat::Paren(x) => Pat::Paren(Box::new(self.pat(&x.pat))),
            _ => Pat::Other(self.children(|c| syn::visit::visit_pat(c, p))),
        }
    }

    fn item_fn(&mut self, f: &syn::ItemFn) -> ItemFn {
        ItemFn {
            name: f.sig.ident.to_string(),
            has_generics: !f.sig.generics.params.is_empty(),
            inputs: f
                .sig
                .inputs
                .iter()
                .map(|arg| match arg {
                    syn::FnArg::Receiver(_) => FnArg::Receiver,
                    syn::FnArg::Typed(x) => FnArg::Typed(self.pat(&x.pat), ty(&x.ty)),
                })
                .collect(),
            output: match &f.sig.output {
                syn::ReturnType::Default => None,
                syn::ReturnType::Type(_, t) => Some(ty(t)),
            },
            block: self.block(&f.block),
        }
    }
}

/// Gathers expressions without looking into them.
#[derive(Default)]
struct Children {
    exprs: Vec<syn::Expr>,
}

impl<'ast> Visit<'ast> for Children {
    fn visit_expr(&mut self, e: &'ast syn::Expr) {
        self.exprs.push(e.clone());
    }

    fn visit_expr_path(&mut self, p: &'ast syn::ExprPath) {
        self.exprs.push(syn::Expr::Path(p.clone()));
    }

    fn visit_block(&mut self, b: &'ast syn::Block) {
        self.exprs.push(syn::Expr::Block(syn::ExprBlock {
            attrs: Vec::new(),
            label: None,
            block: b.clone(),
        }));
    }
}

fn path(p: &syn::Path) -> Path {
    Path {
        leading_colon: p.leading_colon.is_some(),
        segments: p
            .segments
            .iter()
            .map(|s| PathSegment {
                ident: s.ident.to_string(),
                has_arguments: !s.arguments.is_none(),
            })
            .collect(),
    }
}

fn expr_path(p: &syn::ExprPath) -> ExprPath {
    ExprPath { qself: p.qself.is_some(), path: path(&p.path) }
}

fn lit(l: &syn::Lit) -> Lit {
    match l {
        syn::Lit::Int(x) => int_lit(&x.to_string()),
        _ => Lit::Other,
    }
}

fn ty(t: &syn::Type) -> Type {
    match t {
        syn::Type::Path(x) => Type::Path(path(&x.path)),
        syn::Type::Ptr(_) => Type::Ptr,
        _ => Type::Other,
    }
}

fn unop(op: &syn::UnOp) -> Option<UnOp> {
    match op {
        syn::UnOp::Deref(_) => Some(UnOp::Deref),
        syn::UnOp::Not(_) => Some(UnOp::Not),
        syn::UnOp::Neg(_) => Some(UnOp::Neg),
        _ => None,
    }
}

fn binop(op: &syn::BinOp) -> Option<BinOp> {
    Some(match op {
        syn::BinOp::Add(_) => BinOp::Add,
        syn::BinOp::Sub(_) => BinOp::Sub,
        syn::BinOp::Mul(_) => BinOp::Mul,
        syn::BinOp::Div(_) => BinOp::Div,
        syn::BinOp::Rem(_) => BinOp::Rem,
        syn::BinOp::And(_) => BinOp::And,
        syn::BinOp::Or(_) => BinOp::Or,
        syn::BinOp::BitXor(_) => BinOp::BitXor,
        syn::BinOp::BitAnd(_) => BinOp::BitAnd,
        syn::BinOp::BitOr(_) => BinOp::BitOr,
        syn::BinOp::Shl(_) => BinOp::Shl,
        syn::BinOp::Shr(_) => BinOp::Shr,
        syn::BinOp::Eq(_) => BinOp::Eq,
        syn::BinOp::Lt(_) => BinOp::Lt,
        syn::BinOp::Le(_) => BinOp::Le,
        syn::BinOp::Ne(_) => BinOp::Ne,
        syn::BinOp::Ge(_) => BinOp::Ge,
        syn::BinOp::Gt(_) => BinOp::Gt,
        syn::BinOp::AddAssign(_) => BinOp::AddAssign,
        syn::BinOp::SubAssign(_) => BinOp::SubAssign,
        syn::BinOp::MulAssign(_) => BinOp::MulAssign,
        syn::BinOp::DivAssign(_) => BinOp::DivAssign,
        syn::BinOp::RemAssign(_) => BinOp::RemAssign,
        syn::BinOp::BitXorAssign(_) => BinOp::BitXorAssign,
        syn::BinOp::BitAndAssign(_) => BinOp::BitAndAssign,
        syn::BinOp::BitOrAssign(_) => BinOp::BitOrAssign,
        syn::BinOp::ShlAssign(_) => BinOp::ShlAssign,
        syn::BinOp::ShrAssign(_) => BinOp::ShrAssign,
        _ => return None,
    })
}
