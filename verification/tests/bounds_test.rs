use ethnum::U256;
use move_dep_bounds::bounds::{
    binary_operation_max, get_min_uint, get_uint_constant, get_uint_max, is_uint,
};
use move_dep_bounds::model::{ConstVal, Op, VarType, Width};

fn u(x: u128) -> U256 {
    U256([x, 0])
}

fn uint_ty(w: Width) -> VarType {
    VarType::Uint(w)
}

#[test]
fn add_overflow_clamps_to_width_max() {
    // two U8 operands bound at 255 each: the sum clamps to the U8 maximum
    let (max, c) = binary_operation_max(
        Op::Add,
        Some(u(255)),
        Some(u(255)),
        false,
        false,
        &uint_ty(Width::W8),
    );
    assert_eq!(max.unwrap(), u(255));
    assert!(!c);
}

#[test]
fn add_constants_within_range_is_exact_and_constant() {
    let (max, c) = binary_operation_max(
        Op::Add,
        Some(u(100)),
        Some(u(55)),
        true,
        true,
        &uint_ty(Width::W8),
    );
    assert_eq!(max.unwrap(), u(155));
    assert!(c);
}

#[test]
fn mul_overflow_clamps_to_width_max() {
    let (max, c) = binary_operation_max(
        Op::Mul,
        Some(u(1 << 40)),
        Some(u(1 << 40)),
        false,
        false,
        &uint_ty(Width::W64),
    );
    assert_eq!(max.unwrap(), u(0xffff_ffff_ffff_ffff));
    assert!(!c);
}

#[test]
fn mod_with_nonconstant_left_is_right_minus_one() {
    // left bound 1000 (non-constant) mod right bound 10: the tightest bound is 9
    let (max, c) = binary_operation_max(
        Op::Mod,
        Some(u(1000)),
        Some(u(10)),
        false,
        true,
        &uint_ty(Width::W64),
    );
    assert_eq!(max.unwrap(), u(9));
    assert!(!c);
}

#[test]
fn mod_with_smaller_left_keeps_left_bound() {
    let (max, c) = binary_operation_max(
        Op::Mod,
        Some(u(3)),
        Some(u(10)),
        false,
        false,
        &uint_ty(Width::W64),
    );
    assert_eq!(max.unwrap(), u(3));
    assert!(!c);
}

#[test]
fn mod_of_constants_is_exact_remainder() {
    let (max, c) = binary_operation_max(
        Op::Mod,
        Some(u(17)),
        Some(u(5)),
        true,
        true,
        &uint_ty(Width::W64),
    );
    assert_eq!(max.unwrap(), u(2));
    assert!(c);
}

#[test]
fn sub_of_constants_is_exact() {
    let (max, c) = binary_operation_max(
        Op::Sub,
        Some(u(10)),
        Some(u(3)),
        true,
        true,
        &uint_ty(Width::W64),
    );
    assert_eq!(max.unwrap(), u(7));
    assert!(c);
}

#[test]
fn sub_with_constant_right_subtracts_conservatively() {
    let (max, c) = binary_operation_max(
        Op::Sub,
        Some(u(10)),
        Some(u(3)),
        false,
        true,
        &uint_ty(Width::W64),
    );
    assert_eq!(max.unwrap(), u(7));
    assert!(!c);
}

#[test]
fn sub_with_nonconstant_right_keeps_left_bound() {
    let (max, c) = binary_operation_max(
        Op::Sub,
        Some(u(10)),
        Some(u(30)),
        false,
        false,
        &uint_ty(Width::W64),
    );
    assert_eq!(max.unwrap(), u(10));
    assert!(!c);
}

#[test]
fn div_keeps_left_bound() {
    let (max, c) = binary_operation_max(
        Op::Div,
        Some(u(100)),
        Some(u(3)),
        true,
        true,
        &uint_ty(Width::W64),
    );
    assert_eq!(max.unwrap(), u(100));
    assert!(!c);
}

#[test]
fn shl_shifts_the_left_bound() {
    let (max, c) = binary_operation_max(
        Op::Shl,
        Some(u(1)),
        Some(u(3)),
        false,
        false,
        &uint_ty(Width::W64),
    );
    assert_eq!(max.unwrap(), u(8));
    assert!(!c);
}

#[test]
fn width_maxima_are_exact() {
    assert_eq!(get_uint_max(&uint_ty(Width::W8)).unwrap(), u(255));
    assert_eq!(get_uint_max(&uint_ty(Width::W16)).unwrap(), u(65535));
    assert_eq!(get_uint_max(&uint_ty(Width::W32)).unwrap(), u(4294967295));
    assert_eq!(
        get_uint_max(&uint_ty(Width::W64)).unwrap(),
        u(18446744073709551615)
    );
    assert_eq!(get_uint_max(&uint_ty(Width::W128)).unwrap(), U256([u128::MAX, 0]));
    assert_eq!(get_uint_max(&uint_ty(Width::W256)).unwrap(), U256::MAX);
    assert_eq!(get_uint_max(&VarType::Bool), None);
}

#[test]
fn uint_constant_is_exact_and_others_absent() {
    assert_eq!(
        get_uint_constant(&ConstVal::Uint(Width::W8, u(42))).unwrap(),
        u(42)
    );
    assert_eq!(get_uint_constant(&ConstVal::Bool(true)), None);
    assert_eq!(get_uint_constant(&ConstVal::Other), None);
}

#[test]
fn min_uint_takes_the_smaller_bound() {
    assert_eq!(get_min_uint(Some(u(1000)), Some(u(255))).unwrap(), u(255));
    assert_eq!(get_min_uint(Some(u(7)), Some(u(255))).unwrap(), u(7));
}

#[test]
fn is_uint_recognizes_integer_types() {
    assert!(is_uint(&uint_ty(Width::W8)));
    assert!(!is_uint(&VarType::Bool));
    assert!(!is_uint(&VarType::Signer));
}
