//! Policies and their bytes.

use majit::kinds::{Binding, BindingKind, Register};
use majit::calls::int_arg_regs;
use majit::names::call_method_name;
use majit::policy::{
    binding_kind_for_inline_policy, call_policy_effect_slot, call_policy_is_wrapped,
    call_policy_result_kind, call_result_matches_binding, classify_virtualizable_hint_segments,
    CallFamily, CallPolicyKind, CallResultKind, CondCallEffectSlot, PolicyCheck, RaisingCodes,
    VirtualizableHintKind, INT_ELIDABLE, INT_INLINE, INT_MAY_FORCE, REF_ELIDABLE, UNSUPPORTED,
    VOID_DONT_LOOK_INSIDE, VOID_LOOP_INVARIANT, VOID_MAY_FORCE,
};
use majit::policy_bytes::{
    can_raise_codes, check_policy, inferred_call_family, policy_byte, policy_of_byte,
    slot_for_policy_byte, PolicyVerdict,
};

#[test]
fn bytes_are_read_back() {
    for byte in 0..=255u8 {
        match policy_of_byte(byte) {
            Some((family, result)) => assert_eq!(policy_byte(family, result), byte),
            None => assert!(byte == 0 || (5..=8).contains(&byte) || byte > 10),
        }
    }
    assert_eq!(policy_byte(CallFamily::Pure, CallResultKind::Float), UNSUPPORTED);
}

#[test]
fn conditional_calls_accept_void_callees_that_do_not_force() {
    let check = PolicyCheck::ConditionalCall { args_empty: false };
    assert_eq!(check_policy(check, VOID_DONT_LOOK_INSIDE), PolicyVerdict::Accepted);
    assert_eq!(check_policy(check, VOID_MAY_FORCE), PolicyVerdict::Forces);
    assert_eq!(check_policy(check, INT_ELIDABLE), PolicyVerdict::WrongResult);
    assert_eq!(check_policy(check, INT_INLINE), PolicyVerdict::Unknown);
    assert_eq!(check_policy(check, VOID_LOOP_INVARIANT), PolicyVerdict::LoopInvariantArguments);
    let bare = PolicyCheck::ConditionalCall { args_empty: true };
    assert_eq!(check_policy(bare, VOID_LOOP_INVARIANT), PolicyVerdict::Accepted);
}

#[test]
fn values_and_results_are_checked_by_bank() {
    let value = PolicyCheck::ConditionalValue { kind: BindingKind::Int, args_empty: true };
    assert_eq!(check_policy(value, INT_ELIDABLE), PolicyVerdict::Accepted);
    assert_eq!(check_policy(value, REF_ELIDABLE), PolicyVerdict::WrongResult);
    assert_eq!(check_policy(value, INT_MAY_FORCE), PolicyVerdict::Forces);
    let known = PolicyCheck::KnownResult { kind: BindingKind::Ref };
    assert_eq!(check_policy(known, REF_ELIDABLE), PolicyVerdict::Accepted);
    assert_eq!(check_policy(known, 25), PolicyVerdict::NotElidable);
    let float = PolicyCheck::KnownResult { kind: BindingKind::Float };
    assert_eq!(check_policy(float, REF_ELIDABLE), PolicyVerdict::Float);
}

#[test]
fn markers_follow_the_callees_that_can_raise() {
    assert_eq!(can_raise_codes(RaisingCodes::ConditionalCall), vec![1]);
    assert_eq!(can_raise_codes(RaisingCodes::ConditionalValueInt), vec![2, 3, 20]);
    assert_eq!(can_raise_codes(RaisingCodes::KnownResultRef), vec![21, 23]);
    assert_eq!(can_raise_codes(RaisingCodes::ValueCall), vec![2, 3, 4, 10, 14, 20]);
    assert!(can_raise_codes(RaisingCodes::Never).is_empty());
}

#[test]
fn a_byte_has_a_slot_unless_the_callee_forces() {
    let fallback = CondCallEffectSlot::CannotRaise;
    assert_eq!(
        slot_for_policy_byte(INT_ELIDABLE, fallback),
        Some(CondCallEffectSlot::ElidableCanRaise)
    );
    assert_eq!(slot_for_policy_byte(INT_MAY_FORCE, fallback), None);
    assert_eq!(slot_for_policy_byte(200, fallback), Some(fallback));
}

#[test]
fn an_inferred_call_takes_the_family_of_its_result() {
    assert_eq!(
        inferred_call_family(VOID_MAY_FORCE, CallResultKind::Void),
        Some(CallFamily::MayForce)
    );
    assert_eq!(inferred_call_family(VOID_MAY_FORCE, CallResultKind::Int), None);
    assert_eq!(
        inferred_call_family(INT_INLINE, CallResultKind::Int),
        Some(CallFamily::Inline)
    );
}

#[test]
fn methods_are_named_after_family_and_result() {
    let name = |family, result| call_method_name(family, result).expect("a method");
    assert_eq!(
        name(CallFamily::Residual, CallResultKind::Void),
        "residual_call_void_canonical_via_target"
    );
    assert_eq!(
        name(CallFamily::ResidualCannotRaise, CallResultKind::Ref),
        "residual_call_ref_canonical_via_target_with_effect_info"
    );
    assert_eq!(
        name(CallFamily::PureOrMemerror, CallResultKind::Int),
        "call_pure_int_canonical_via_target_or_memerror"
    );
    assert_eq!(
        name(CallFamily::LoopInvariant, CallResultKind::Float),
        "call_loopinvariant_float_canonical_via_target"
    );
    assert!(call_method_name(CallFamily::Inline, CallResultKind::Int).is_none());
}

#[test]
fn policies_have_effects_results_and_wrappers() {
    assert_eq!(
        call_policy_effect_slot(CallPolicyKind::ElidableInt),
        Some(CondCallEffectSlot::ElidableCanRaise)
    );
    assert_eq!(call_policy_effect_slot(CallPolicyKind::MayForceVoid), None);
    assert_eq!(
        call_policy_result_kind(CallPolicyKind::ResidualInt),
        Some(CallResultKind::Int)
    );
    assert!(call_result_matches_binding(CallResultKind::Ref, BindingKind::Ref));
    assert!(!call_result_matches_binding(CallResultKind::Void, BindingKind::Int));
    assert!(!call_policy_is_wrapped(CallPolicyKind::ResidualVoid));
    assert!(call_policy_is_wrapped(CallPolicyKind::ResidualVoidWrapped));
    assert_eq!(
        binding_kind_for_inline_policy(CallPolicyKind::InlineRef),
        Some(BindingKind::Ref)
    );
    assert_eq!(binding_kind_for_inline_policy(CallPolicyKind::ResidualInt), None);
}

#[test]
fn slots_know_whether_they_raise_or_are_elidable() {
    assert!(CondCallEffectSlot::CanRaise.can_raise());
    assert!(!CondCallEffectSlot::LoopInvariant.can_raise());
    assert!(CondCallEffectSlot::ElidableOrMemerror.can_raise());
    assert!(CondCallEffectSlot::ElidableCannotRaise.is_elidable());
    assert!(!CondCallEffectSlot::CannotRaise.is_elidable());
}

#[test]
fn hints_are_named_by_the_last_segment() {
    let segments = |v: &[&str]| v.iter().map(|s| s.to_string()).collect::<Vec<String>>();
    assert_eq!(
        classify_virtualizable_hint_segments(&segments(&["majit", "hint_access_directly"])),
        Some(VirtualizableHintKind::AccessDirectly)
    );
    assert_eq!(
        classify_virtualizable_hint_segments(&segments(&["hint_force_virtualizable"])),
        Some(VirtualizableHintKind::ForceVirtualizable)
    );
    assert_eq!(classify_virtualizable_hint_segments(&segments(&["hint"])), None);
    assert_eq!(classify_virtualizable_hint_segments(&[]), None);
}

#[test]
fn registers_come_from_their_bindings() {
    let b = Binding { reg: 9, kind: BindingKind::Float, depends_on_stack: false };
    assert_eq!(Register::from_binding(&b), Register::float(9));
    assert_eq!(Register::new(BindingKind::Int, 4), Register::int_(4));
    assert_eq!(Register::refs(&[1, 2]), vec![Register::ref_(1), Register::ref_(2)]);
    assert_eq!(Register::floats(&[3]), vec![Register::float(3)]);
    let ints = [
        Binding { reg: 1, kind: BindingKind::Int, depends_on_stack: false },
        Binding { reg: 2, kind: BindingKind::Int, depends_on_stack: true },
    ];
    assert_eq!(int_arg_regs(&ints), Some(vec![1, 2]));
    assert_eq!(int_arg_regs(&[b]), None);
}
