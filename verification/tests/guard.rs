//! Fail descriptors and dead frames.

use std::sync::Arc;

use majit::guard::{
    BridgeData, CraneliftFailDescr, ExitRecoveryLayout, GcRef, JitFrameDeadFrame, MetaDescr,
    MetaFailDescr, Type, ST_TYPE_MASK, TY_REF,
};

fn bridge(code_ptr: usize, num_inputs: usize, max_output_slots: usize, roots: usize) -> BridgeData {
    BridgeData {
        trace_id: 7,
        input_types: vec![Type::Int],
        header_pc: 0,
        source_guard: (1, 2),
        caller_prefix_layout: None,
        code_ptr,
        fail_descrs: Vec::new(),
        num_inputs,
        num_ref_roots: roots,
        max_output_slots,
        terminal_exit_layouts: Vec::new(),
        loop_reentry: false,
        invalidated: None,
    }
}

fn meta() -> MetaDescr {
    MetaDescr {
        fail: Some(MetaFailDescr {
            is_resume_guard: false,
            is_finish: true,
            is_exit_frame_with_exception: true,
            trace_id: 99,
            rd_numb: Some(vec![1, 2]),
            rd_consts: None,
            rd_virtuals: Some(vec![5]),
            rd_pendingfields: None,
        }),
    }
}

#[test]
fn references_are_mapped_unless_they_are_force_tokens() {
    let descr = CraneliftFailDescr::new_with_kind_and_force_tokens(
        3,
        vec![Type::Ref, Type::Int, Type::Ref, Type::Float, Type::Ref],
        true,
        vec![4, 0, 4],
    );
    assert_eq!(descr.force_token_slots, vec![0, 4]);
    assert!(descr.is_force_token_slot(0));
    assert!(!descr.is_force_token_slot(2));
    assert!(descr.is_force_token_slot(4));
    assert!(!descr.is_gc_ref_slot(0));
    assert!(descr.is_gc_ref_slot(2));
    assert!(!descr.is_gc_ref_slot(1));
    assert!(!descr.is_gc_ref_slot(9));
    assert!(descr.is_finish());
    assert_eq!(descr.layout().gc_ref_slots, vec![2]);
}

#[test]
fn an_attached_bridge_is_taken_back() {
    let mut descr = CraneliftFailDescr::new(0, vec![Type::Int]);
    assert!(!descr.has_bridge());
    descr.attach_bridge(bridge(0x1000, 3, 2, 4));
    assert!(descr.has_bridge());
    assert_eq!(descr.bridge_code_ptr(), 0x1000);
    assert_eq!(descr.bridge_frame_depth_cache, 7);
    let taken = descr.take_bridge().expect("a bridge");
    assert_eq!(taken.trace_id, 7);
    assert!(!descr.has_bridge());
    assert_eq!(descr.bridge_frame_depth_cache, 0);
    assert!(descr.take_bridge().is_none());
}

#[test]
fn a_bridge_needs_at_least_one_slot_and_no_more_than_there_can_be() {
    assert_eq!(bridge(1, 0, 0, 0).required_frame_depth(), 1);
    assert_eq!(bridge(1, 2, 9, 1).required_frame_depth(), 10);
    assert_eq!(bridge(1, 1, 1, usize::MAX).required_frame_depth(), usize::MAX);
}

#[test]
fn a_status_holds_a_hash_or_a_counter() {
    let mut descr = CraneliftFailDescr::new(0, Vec::new());
    descr.store_hash(0xFFFF);
    assert_eq!(descr.get_status(), 0xFFF8);
    assert!(!descr.is_compiling());
    descr.start_compiling();
    assert!(descr.is_compiling());
    assert_eq!(descr.get_status(), 0xFFF9);
    descr.done_compiling();
    assert_eq!(descr.get_status(), 0xFFF8);
    descr.make_a_counter_per_value(5, TY_REF);
    assert_eq!(descr.get_status(), 5 * 8 + 4);
    assert_eq!(descr.get_status() & ST_TYPE_MASK, TY_REF);
}

#[test]
fn failures_are_counted() {
    let mut descr = CraneliftFailDescr::new(0, Vec::new());
    assert_eq!(descr.increment_fail_count(), 1);
    assert_eq!(descr.increment_fail_count(), 2);
    assert_eq!(descr.get_fail_count(), 2);
}

#[test]
fn the_frontends_word_counts() {
    let mut descr = CraneliftFailDescr::new_with_kind(1, Vec::new(), false);
    assert!(descr.is_resume_guard());
    assert!(!descr.is_final_exit());
    assert_eq!(descr.trace_id(), 0);
    assert!(descr.rd_numb().is_none());
    descr.meta_descr = Some(meta());
    assert!(!descr.is_resume_guard());
    assert!(descr.is_final_exit());
    assert!(!descr.is_finish());
    assert!(descr.is_exit_frame_with_exception());
    assert_eq!(descr.trace_id(), 99);
    assert_eq!(descr.rd_numb(), Some(vec![1, 2]));
    assert_eq!(descr.rd_virtuals(), Some(vec![5]));
    descr.meta_descr = Some(MetaDescr { fail: None });
    assert!(descr.is_resume_guard());
}

#[test]
fn a_jump_into_another_loop_does_not_resume() {
    let descr = CraneliftFailDescr::new_external_jump(2, 8, Vec::new(), Vec::new(), None, 55);
    assert!(descr.is_external_jump());
    assert_eq!(descr.target_descr(), Some(55));
    assert!(!descr.is_resume_guard());
    assert!(!descr.is_finish());
}

#[test]
fn a_layout_repeats_what_is_known() {
    let mut descr = CraneliftFailDescr::new_with_trace_and_kind_and_force_tokens(
        6,
        40,
        vec![Type::Ref],
        false,
        Vec::new(),
        Some(ExitRecoveryLayout { frames: vec![1, 2], rest: 3 }),
    );
    descr.set_source_op_index(12);
    descr.set_trace_info(77);
    descr.set_rd_loop_token_clt(5);
    let layout = descr.layout();
    assert_eq!(layout.fail_index, 6);
    assert_eq!(layout.source_op_index, Some(12));
    assert_eq!(layout.trace_id, 40);
    assert_eq!(layout.trace_info, Some(77));
    assert_eq!(layout.gc_ref_slots, vec![0]);
    assert_eq!(layout.frame_stack, Some(vec![1, 2]));
    assert_eq!(layout.recovery_layout.map(|r| r.rest), Some(3));
    assert_eq!(descr.rd_loop_token_clt(), Some(5));
}

#[test]
fn a_dead_frame_reads_its_words() {
    let descr = Arc::new(CraneliftFailDescr::new(0, vec![Type::Int, Type::Ref]));
    let words = vec![0, 0, 0, 0, 0, 0x30, 0, 0, -4, 0x50];
    let mut frame = JitFrameDeadFrame::new(words, descr, None);
    assert_eq!(frame.get_int(0), -4);
    assert_eq!(frame.get_ref(1), GcRef { addr: 0x50 });
    assert_eq!(frame.take_ref_for_call_result(1), GcRef { addr: 0x50 });
    assert_eq!(frame.grab_exc_value(), GcRef { addr: 0x30 });
    assert!(frame.try_get_savedata_ref().is_none());
    frame.set_savedata_ref(GcRef { addr: 0x99 });
    assert_eq!(frame.try_get_savedata_ref(), Some(GcRef { addr: 0x99 }));
    assert_eq!(frame.get_savedata_ref(), GcRef { addr: 0x99 });
    assert!(!frame.must_unregister());
    frame.register_roots(true);
    assert!(frame.must_unregister());
}
