//! Call descriptors.

use majit::call_descr::{
    default_effect_for_opcode, make_call_assembler_descr, make_call_assembler_descr_with_vable,
    make_call_descr, make_call_descr_for_opcode, make_call_descr_with_effect,
    make_call_may_force_descr, CallOpcode, EffectInfo, ExtraEffect,
};
use majit::guard::Type;

#[test]
fn a_call_that_was_not_analyzed_touches_everything() {
    let descr = make_call_descr(&[Type::Int, Type::Ref], Type::Int);
    assert_eq!(descr.index(), u32::MAX);
    assert_eq!(*descr.arg_types(), vec![Type::Int, Type::Ref]);
    assert_eq!(descr.result_type(), Type::Int);
    assert_eq!(descr.result_size(), 0);
    assert_eq!(descr.call_target_token(), None);
    let effect = descr.get_extra_info();
    assert_eq!(effect.extraeffect, ExtraEffect::CanRaise);
    assert_eq!(effect.oopspecindex, None);
    assert_eq!(effect.touched.write_descrs_fields, u64::MAX);
    assert_eq!(effect.touched.readonly_descrs_interiorfields, u64::MAX);
    assert_eq!(effect.can_invalidate, Some(false));
    assert_eq!(effect.can_collect, Some(true));
}

#[test]
fn an_effect_known_by_its_class_writes_nothing() {
    let effect = default_effect_for_opcode(CallOpcode::CallPure);
    assert_eq!(effect.oopspecindex, None);
    assert_eq!(effect.touched.readonly_descrs_fields, 0);
    assert_eq!(effect.touched.write_descrs_fields, 0);
    assert_eq!(effect.touched.readonly_descrs_arrays, 0);
    assert_eq!(effect.touched.write_descrs_arrays, 0);
    assert_eq!(effect.touched.readonly_descrs_interiorfields, 0);
    assert_eq!(effect.touched.write_descrs_interiorfields, 0);
}

#[test]
fn the_opcode_decides_the_default_effect() {
    assert_eq!(
        default_effect_for_opcode(CallOpcode::CallPure),
        EffectInfo::of_class(ExtraEffect::ElidableCanRaise)
    );
    assert_eq!(
        default_effect_for_opcode(CallOpcode::CallLoopInvariant),
        EffectInfo::of_class(ExtraEffect::LoopInvariant)
    );
    assert_eq!(
        default_effect_for_opcode(CallOpcode::CallMayForce).extraeffect,
        ExtraEffect::CanRaise
    );
    let descr = make_call_descr_for_opcode(CallOpcode::CallPure, &[], Type::Ref);
    assert_eq!(descr.get_extra_info().extraeffect, ExtraEffect::ElidableCanRaise);
}

#[test]
fn a_given_effect_is_kept() {
    let effect = EffectInfo::of_class(ExtraEffect::RandomEffects);
    let descr = make_call_descr_with_effect(&[], Type::Void, effect);
    assert_eq!(descr.get_extra_info(), effect);
    let full = EffectInfo {
        oopspecindex: Some(7),
        single_write_descr_array: Some(11),
        extradescrs: Some(12),
        call_release_gil_target: Some(13),
        ..effect
    };
    let descr = make_call_descr_with_effect(&[], Type::Void, full);
    assert_eq!(descr.get_extra_info(), full);
    assert_eq!(descr.get_extra_info().call_release_gil_target, Some(13));
}

#[test]
fn forcing_calls_may_raise() {
    let descr = make_call_may_force_descr(&[Type::Float], Type::Float);
    assert_eq!(descr.get_extra_info(), EffectInfo::of_class(ExtraEffect::CanRaise));
    assert_eq!(descr.result_size(), 0);
}

#[test]
fn calls_of_compiled_code_know_their_target() {
    let descr = make_call_assembler_descr(11, &[Type::Ref], Type::Int, Some(2));
    assert_eq!(descr.call_target_token(), Some(11));
    assert_eq!(descr.call_virtualizable_index(), Some(2));
    assert_eq!(descr.vable_expansion(), None);
    assert_eq!(descr.result_size(), 8);
    let expanded = make_call_assembler_descr_with_vable(12, &[Type::Ref], Type::Int, 33);
    assert_eq!(expanded.vable_expansion(), Some(33));
    assert_eq!(expanded.call_virtualizable_index(), None);
    assert_eq!(expanded.get_extra_info(), EffectInfo::of_class(ExtraEffect::CanRaise));
}
