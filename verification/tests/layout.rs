//! Registers of the locals that arms use.

use std::collections::HashMap;

use majit::kinds::{Binding, BindingKind};
use majit::layout::{assign_caller_local_layout, dispatch_arm_inline_call, CallerLocalLayout};
use majit::names::inline_method_name;
use majit::ops::InlineFamily;

fn caller_binding(kind: BindingKind, parent_reg: u16) -> Binding {
    Binding { reg: parent_reg, kind, depends_on_stack: false }
}

#[test]
fn empty_input_yields_empty_layout_and_zero_advance() {
    let (layout, max_pre_bound) = assign_caller_local_layout(&[]);
    assert!(layout.is_empty());
    assert_eq!(max_pre_bound, 0);
}

#[test]
fn per_bank_packed_callee_regs() {
    let caller_locals = vec![
        ("first_int".to_string(), caller_binding(BindingKind::Int, 5)),
        ("first_ref".to_string(), caller_binding(BindingKind::Ref, 9)),
        ("second_int".to_string(), caller_binding(BindingKind::Int, 6)),
        ("second_ref".to_string(), caller_binding(BindingKind::Ref, 10)),
        ("first_float".to_string(), caller_binding(BindingKind::Float, 2)),
    ];
    let (layout, max_pre_bound) = assign_caller_local_layout(&caller_locals);
    let by_name: HashMap<String, (u16, BindingKind)> =
        layout.iter().map(|l| (l.name.clone(), (l.callee_reg, l.kind))).collect();
    assert_eq!(by_name["first_int"].0, 0u16);
    assert!(matches!(by_name["first_int"].1, BindingKind::Int));
    assert_eq!(by_name["second_int"].0, 1u16);
    assert!(matches!(by_name["second_int"].1, BindingKind::Int));
    assert_eq!(by_name["first_ref"].0, 0u16);
    assert!(matches!(by_name["first_ref"].1, BindingKind::Ref));
    assert_eq!(by_name["second_ref"].0, 1u16);
    assert!(matches!(by_name["second_ref"].1, BindingKind::Ref));
    assert_eq!(by_name["first_float"].0, 0u16);
    assert!(matches!(by_name["first_float"].1, BindingKind::Float));
    assert_eq!(max_pre_bound, 2);
}

#[test]
fn parent_reg_is_preserved_in_layout() {
    let caller_locals = vec![
        ("pc".to_string(), caller_binding(BindingKind::Int, 7)),
        ("program".to_string(), caller_binding(BindingKind::Ref, 3)),
    ];
    let (layout, max_pre_bound) = assign_caller_local_layout(&caller_locals);
    let pc_layout = layout.iter().find(|l| l.name == "pc").expect("pc in layout");
    assert_eq!(pc_layout.parent_reg, 7);
    assert_eq!(pc_layout.callee_reg, 0);
    assert!(matches!(pc_layout.kind, BindingKind::Int));
    let program_layout = layout.iter().find(|l| l.name == "program").expect("program in layout");
    assert_eq!(program_layout.parent_reg, 3);
    assert_eq!(program_layout.callee_reg, 0);
    assert!(matches!(program_layout.kind, BindingKind::Ref));
    assert_eq!(max_pre_bound, 1);
}

#[test]
fn order_within_kind_matches_input() {
    let caller_locals = vec![
        ("a".to_string(), caller_binding(BindingKind::Int, 100)),
        ("b".to_string(), caller_binding(BindingKind::Int, 200)),
        ("c".to_string(), caller_binding(BindingKind::Int, 300)),
    ];
    let (layout, _) = assign_caller_local_layout(&caller_locals);
    assert_eq!(layout[0].callee_reg, 0);
    assert_eq!(layout[0].parent_reg, 100);
    assert_eq!(layout[1].callee_reg, 1);
    assert_eq!(layout[1].parent_reg, 200);
    assert_eq!(layout[2].callee_reg, 2);
    assert_eq!(layout[2].parent_reg, 300);
}

fn entry(name: &str, parent_reg: u16, callee_reg: u16, kind: BindingKind) -> CallerLocalLayout {
    CallerLocalLayout { name: name.to_string(), parent_reg, callee_reg, kind }
}

#[test]
fn empty_layout_emits_inline_call_r_v_no_args() {
    let (family, args) = dispatch_arm_inline_call(&vec![]);
    assert_eq!(inline_method_name(family, None), "inline_call_r_v");
    assert!(args.r.is_empty());
    assert!(args.i.is_empty());
    assert!(args.f.is_empty());
}

#[test]
fn ref_only_layout_uses_inline_call_r_v() {
    let (family, args) =
        dispatch_arm_inline_call(&vec![entry("program", 3, 0, BindingKind::Ref)]);
    assert_eq!(family, InlineFamily::R);
    assert_eq!(inline_method_name(family, None), "inline_call_r_v");
    assert_eq!(args.r, vec![(3u16, 0u16)]);
}

#[test]
fn mixed_int_ref_uses_inline_call_ir_v() {
    let (family, args) = dispatch_arm_inline_call(&vec![
        entry("pc", 7, 0, BindingKind::Int),
        entry("program", 3, 0, BindingKind::Ref),
    ]);
    assert_eq!(inline_method_name(family, None), "inline_call_ir_v");
    assert_eq!(args.i, vec![(7u16, 0u16)]);
    assert_eq!(args.r, vec![(3u16, 0u16)]);
}

#[test]
fn any_float_uses_inline_call_irf_v() {
    let (family, args) = dispatch_arm_inline_call(&vec![
        entry("pc", 7, 0, BindingKind::Int),
        entry("flt", 9, 0, BindingKind::Float),
    ]);
    assert_eq!(inline_method_name(family, None), "inline_call_irf_v");
    assert_eq!(args.f, vec![(9u16, 0u16)]);
}

#[test]
fn a_full_bank_is_packed_without_gaps() {
    let count = u16::MAX as usize;
    let caller_locals: Vec<(String, Binding)> =
        (0..count).map(|_| ("x".to_string(), caller_binding(BindingKind::Int, 0))).collect();
    let (layout, max_pre_bound) = assign_caller_local_layout(&caller_locals);
    assert!(layout.iter().enumerate().all(|(i, l)| l.callee_reg as usize == i));
    assert_eq!(max_pre_bound, u16::MAX);
}
