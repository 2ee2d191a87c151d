//! Drivers and marked helpers.

use majit::driver::{helper_policy_byte, DriverDecl, HelperAttribute};
use majit::kinds::InlineReturnKind;

fn words(v: &[&str]) -> Vec<String> {
    v.iter().map(|s| s.to_string()).collect()
}

fn my_driver() -> DriverDecl {
    DriverDecl::new(words(&["pc", "code"]), words(&["frame"]))
}

#[test]
fn test_driver_greens() {
    assert_eq!(my_driver().greens, &["pc", "code"]);
}

#[test]
fn test_driver_reds() {
    assert_eq!(my_driver().reds, &["frame"]);
}

#[test]
fn test_driver_num_greens() {
    assert_eq!(my_driver().num_greens(), 2);
}

#[test]
fn test_driver_num_reds() {
    assert_eq!(my_driver().num_reds(), 1);
}

#[test]
fn test_driver_num_vars() {
    assert_eq!(my_driver().num_vars(), 3);
}

#[test]
fn test_single_green_driver() {
    let driver = DriverDecl::new(words(&["pc"]), words(&["frame", "stack"]));
    assert_eq!(driver.greens, &["pc"]);
    assert_eq!(driver.reds, &["frame", "stack"]);
    assert_eq!(driver.num_greens(), 1);
    assert_eq!(driver.num_reds(), 2);
    assert_eq!(driver.num_vars(), 3);
}

fn int_helper(attribute: HelperAttribute) -> u8 {
    helper_policy_byte(attribute, Some(InlineReturnKind::Int))
}

fn compute(x: i64) -> i64 {
    x * x + 1
}

#[test]
fn test_elidable_function() {
    assert_eq!(compute(5), 26);
    assert_eq!(compute(0), 1);
    assert_eq!(compute(-3), 10);
    assert_eq!(int_helper(HelperAttribute::Elidable), 3u8);
}

fn compute_pure(x: i64) -> i64 {
    x * 2
}

#[test]
fn test_elidable_cannot_raise_function() {
    assert_eq!(compute_pure(7), 14);
    assert_eq!(int_helper(HelperAttribute::ElidableCannotRaise), 19u8);
}

fn compute_memerror(x: i64) -> i64 {
    x + 100
}

#[test]
fn test_elidable_or_memerror_function() {
    assert_eq!(compute_memerror(7), 107);
    assert_eq!(int_helper(HelperAttribute::ElidableOrMemerror), 20u8);
}

fn opaque_call(x: i64, y: i64) -> i64 {
    x + y
}

#[test]
fn test_opaque_function() {
    assert_eq!(opaque_call(2, 3), 5);
    assert_eq!(opaque_call(-1, 1), 0);
    assert_eq!(int_helper(HelperAttribute::DontLookInside), 2u8);
}

#[test]
fn float_helpers_publish_no_policy() {
    assert_eq!(
        helper_policy_byte(HelperAttribute::Elidable, Some(InlineReturnKind::Float)),
        0
    );
    assert_eq!(
        helper_policy_byte(HelperAttribute::ReleaseGil, Some(InlineReturnKind::Ref)),
        0
    );
    assert_eq!(helper_policy_byte(HelperAttribute::MayForce, None), 9);
}
