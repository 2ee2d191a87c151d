//! Boxes and their forwarding.

use std::collections::HashMap;

use majit::boxes::{
    BoxHeap, BoxKind, BoxRef, ForwardError, Forwarded, IntBound, OpInfo, PtrInfo, Value,
};
use majit::guard::Type;

#[test]
fn box_ref_identity_is_pointer_equality() {
    let mut heap = BoxHeap::new();
    let a = BoxRef::new_resop(&mut heap, Type::Int);
    let cloned = a.clone();
    let other = BoxRef::new_resop(&mut heap, Type::Int);
    assert_eq!(a, cloned);
    assert_ne!(a, other);
}

#[test]
fn forwarded_chain_walk_returns_terminal() {
    let mut heap = BoxHeap::new();
    let a = BoxRef::new_resop(&mut heap, Type::Int);
    let b = BoxRef::new_resop(&mut heap, Type::Int);
    let c = BoxRef::new_resop(&mut heap, Type::Int);
    a.set_forwarded_box(&mut heap, b).unwrap();
    b.set_forwarded_box(&mut heap, c).unwrap();
    assert_eq!(a.get_box_replacement(&heap, false), c);
    assert_eq!(b.get_box_replacement(&heap, false), c);
    assert_eq!(c.get_box_replacement(&heap, false), c);
}

#[test]
fn forwarded_chain_stops_at_info() {
    let mut heap = BoxHeap::new();
    let a = BoxRef::new_resop(&mut heap, Type::Int);
    let b = BoxRef::new_resop(&mut heap, Type::Int);
    a.set_forwarded_box(&mut heap, b).unwrap();
    b.set_forwarded_info(&mut heap, OpInfo::Unknown).unwrap();
    assert_eq!(a.get_box_replacement(&heap, false), b);
}

#[test]
fn forwarded_chain_not_const_stops_before_const() {
    let mut heap = BoxHeap::new();
    let a = BoxRef::new_resop(&mut heap, Type::Int);
    let b = BoxRef::new_resop(&mut heap, Type::Int);
    let c = BoxRef::new_const(&mut heap, Value::Int(42));
    a.set_forwarded_box(&mut heap, b).unwrap();
    b.set_forwarded_box(&mut heap, c).unwrap();
    assert_eq!(a.get_box_replacement(&heap, true), b);
    assert_eq!(a.get_box_replacement(&heap, false), c);
}

#[test]
fn const_box_kind_and_type() {
    let mut heap = BoxHeap::new();
    let i = BoxRef::new_const(&mut heap, Value::Int(7));
    assert!(i.is_constant(&heap));
    assert_eq!(i.const_value(&heap), Some(Value::Int(7)));
    assert_eq!(i.type_(&heap), Type::Int);

    let f = BoxRef::new_const(&mut heap, Value::Float(1.5f64.to_bits()));
    assert!(f.is_constant(&heap));
    assert_eq!(f.type_(&heap), Type::Float);
}

#[test]
fn inputarg_position_preserved() {
    let mut heap = BoxHeap::new();
    let arg = BoxRef::new_inputarg(&mut heap, Type::Ref, Some(3));
    assert!(arg.is_inputarg(&heap));
    assert_eq!(arg.inputarg_position(&heap), Some(3));
    assert_eq!(arg.type_(&heap), Type::Ref);
}

#[test]
fn clear_forwarded_resets_slot() {
    let mut heap = BoxHeap::new();
    let a = BoxRef::new_resop(&mut heap, Type::Int);
    let b = BoxRef::new_resop(&mut heap, Type::Int);
    a.set_forwarded_box(&mut heap, b).unwrap();
    a.clear_forwarded(&mut heap);
    assert_eq!(a.get_box_replacement(&heap, false), a);
    assert!(matches!(a.get_forwarded(&heap), Forwarded::Nowhere));
}

#[test]
fn boxref_used_as_hashmap_key() {
    let mut heap = BoxHeap::new();
    let a = BoxRef::new_resop(&mut heap, Type::Int);
    let b = BoxRef::new_resop(&mut heap, Type::Int);
    let mut m: HashMap<BoxRef, i32> = HashMap::new();
    m.insert(a.clone(), 1);
    m.insert(b.clone(), 2);
    assert_eq!(m.get(&a), Some(&1));
    assert_eq!(m.get(&b), Some(&2));
    assert_eq!(m.get(&a.clone()), Some(&1));
}

#[test]
fn frontend_op_transition_variant() {
    let mut heap = BoxHeap::new();
    let op = BoxRef::new_frontend_op(&mut heap, Type::Int, 0xdeadbeef);
    assert!(!op.is_resop(&heap));
    assert!(!op.is_inputarg(&heap));
    assert!(!op.is_constant(&heap));
    if let BoxKind::FrontendOp { position_and_flags } = op.kind(&heap) {
        assert_eq!(position_and_flags, 0xdeadbeef);
    } else {
        panic!("expected FrontendOp kind");
    }
}

#[test]
#[should_panic]
fn set_forwarded_to_self_panics_in_debug() {
    let mut heap = BoxHeap::new();
    let a = BoxRef::new_resop(&mut heap, Type::Int);
    a.set_forwarded_box(&mut heap, a.clone()).unwrap();
}

#[test]
fn refused_forwarding_changes_nothing() {
    let mut heap = BoxHeap::new();
    let a = BoxRef::new_resop(&mut heap, Type::Int);
    let c = BoxRef::new_const(&mut heap, Value::Int(1));
    assert_eq!(a.set_forwarded_box(&mut heap, a), Err(ForwardError::ToSelf));
    assert_eq!(c.set_forwarded_box(&mut heap, a), Err(ForwardError::OnConst));
    assert_eq!(c.set_forwarded_info(&mut heap, OpInfo::Unknown), Err(ForwardError::OnConst));
    c.clear_forwarded(&mut heap);
    assert!(matches!(a.get_forwarded(&heap), Forwarded::Nowhere));
    assert!(matches!(c.get_forwarded(&heap), Forwarded::Nowhere));
}

#[test]
fn a_replacement_is_its_own_replacement() {
    let mut heap = BoxHeap::new();
    let a = BoxRef::new_resop(&mut heap, Type::Int);
    let b = BoxRef::new_inputarg(&mut heap, Type::Int, None);
    a.set_forwarded_box(&mut heap, b).unwrap();
    let r = a.get_box_replacement(&heap, false);
    assert_eq!(r.get_box_replacement(&heap, false), r);
}

#[test]
fn ptr_info_returns_inner_when_forwarded_is_ptr_info() {
    let mut heap = BoxHeap::new();
    let a = BoxRef::new_resop(&mut heap, Type::Ref);
    a.set_forwarded_info(&mut heap, OpInfo::Ptr(PtrInfo::nonnull())).unwrap();
    let pi = a.ptr_info(&heap).expect("ptr_info should return Some");
    assert!(pi.is_nonnull());
}

#[test]
fn ptr_info_returns_none_for_unset_box() {
    let mut heap = BoxHeap::new();
    let a = BoxRef::new_resop(&mut heap, Type::Ref);
    assert!(a.ptr_info(&heap).is_none());
}

#[test]
fn ptr_info_returns_none_for_box_forwarded() {
    let mut heap = BoxHeap::new();
    let a = BoxRef::new_resop(&mut heap, Type::Ref);
    let b = BoxRef::new_resop(&mut heap, Type::Ref);
    a.set_forwarded_box(&mut heap, b).unwrap();
    assert!(a.ptr_info(&heap).is_none());
}

#[test]
fn ptr_info_returns_none_for_intbound_forwarded() {
    let mut heap = BoxHeap::new();
    let a = BoxRef::new_resop(&mut heap, Type::Int);
    a.set_forwarded_info(&mut heap, OpInfo::IntBound(IntBound::from_constant(7))).unwrap();
    assert!(a.ptr_info(&heap).is_none());
}

#[test]
fn int_bound_returns_inner_when_forwarded_is_intbound() {
    let mut heap = BoxHeap::new();
    let a = BoxRef::new_resop(&mut heap, Type::Int);
    a.set_forwarded_info(&mut heap, OpInfo::IntBound(IntBound::from_constant(42))).unwrap();
    let ib = a.int_bound(&heap).expect("int_bound should return Some");
    assert!(ib.is_constant());
    assert_eq!(ib.get_constant_int(), 42);
}

#[test]
fn int_bound_returns_none_for_unset_box() {
    let mut heap = BoxHeap::new();
    let a = BoxRef::new_resop(&mut heap, Type::Int);
    assert!(a.int_bound(&heap).is_none());
}

#[test]
fn int_bound_returns_none_for_box_forwarded() {
    let mut heap = BoxHeap::new();
    let a = BoxRef::new_resop(&mut heap, Type::Int);
    let b = BoxRef::new_resop(&mut heap, Type::Int);
    a.set_forwarded_box(&mut heap, b).unwrap();
    assert!(a.int_bound(&heap).is_none());
}

#[test]
fn int_bound_returns_none_for_ptrinfo_forwarded() {
    let mut heap = BoxHeap::new();
    let a = BoxRef::new_resop(&mut heap, Type::Ref);
    a.set_forwarded_info(&mut heap, OpInfo::Ptr(PtrInfo::nonnull())).unwrap();
    assert!(a.int_bound(&heap).is_none());
}
