//! Bound arithmetic: per-width maximum values and the overflow-aware
//! combination of two operand bounds under a binary operation code.

use vstd::prelude::*;
use vstd::arithmetic::power2::pow2;
use crate::model::{ConstVal, Op, VarType, Width, width_max};
use crate::u256::{
    u256_from_limbs, u256_low_u32, u256_lt, u256_min, u256_span, u256_val,
};

verus! {

/// The numeric value of an optional bound.
pub open spec fn omax(o: Option<ethnum::U256>) -> Option<nat> {
    match o {
        Option::Some(v) => Option::Some(u256_val(v)),
        Option::None => Option::None,
    }
}

/// The smaller of two mathematical values.
pub open spec fn spec_min(a: nat, b: nat) -> nat {
    if a <= b {
        a
    } else {
        b
    }
}

/// The upper bound carried by a declared type: the width's maximum for an
/// unsigned integer type, nothing for every other type.
pub open spec fn spec_uint_max(ty: VarType) -> Option<nat> {
    match ty {
        VarType::Uint(w) => Option::Some(width_max(w)),
        _ => Option::None,
    }
}

/// The exact value of an integer literal; nothing for other literals.
pub open spec fn spec_uint_constant(c: ConstVal) -> Option<nat> {
    match c {
        ConstVal::Uint(_, v) => Option::Some(u256_val(v)),
        _ => Option::None,
    }
}

/// Whether `op` is one of the binary numeric operators whose result bound is
/// combined by `binary_operation_max`.
pub open spec fn is_numeric_binop(op: Op) -> bool {
    match op {
        Op::Add | Op::Sub | Op::Mul | Op::Div | Op::Mod | Op::BitOr | Op::BitAnd | Op::Xor
            | Op::Shl | Op::Shr => true,
        _ => false,
    }
}

/// Whether `op` is combined through the destination width's maximum.
pub open spec fn is_clamped_binop(op: Op) -> bool {
    match op {
        Op::Add | Op::Mul | Op::BitOr | Op::BitAnd | Op::Xor => true,
        _ => false,
    }
}

/// The result bound and constant flag of a binary numeric operation, given the
/// operand values `v1` and `v2`, their constant flags, and the destination
/// type's maximum (used only by the clamped operators).
pub open spec fn spec_binop(op: Op, v1: nat, v2: nat, c1: bool, c2: bool, tymax: Option<nat>) -> (nat, bool) {
    match op {
        Op::Mod => if c1 && c2 {
            (v1 % v2, true)
        } else if v1 < v2 {
            (v1, c1)
        } else {
            ((v2 - 1) as nat, false)
        },
        Op::Sub => if c1 && c2 {
            ((v1 - v2) as nat, true)
        } else if c2 && v1 >= v2 {
            ((v1 - v2) as nat, false)
        } else {
            (v1, false)
        },
        Op::Add | Op::BitAnd | Op::BitOr | Op::Xor => (
            spec_min((v1 + v2) as nat, tymax.unwrap()),
            c1 && c2,
        ),
        Op::Mul => (spec_min((v1 * v2) as nat, tymax.unwrap()), c1 && c2),
        Op::Div | Op::Shr => (v1, false),
        Op::Shl => (((v1 * pow2(((v2 % 0x1_0000_0000) % 256) as nat)) % u256_span()) as nat, false),
        _ => (0, false),
    }
}

/// Every width's maximum fits strictly inside the 256-bit container's span.
pub proof fn lemma_width_max_lt_span(w: Width)
    ensures
        width_max(w) < u256_span(),
{
    assert(u256_span() == 0x1_0000_0000_0000_0000_0000_0000_0000_0000nat
        * 0x1_0000_0000_0000_0000_0000_0000_0000_0000nat);
}

/// Whether the declared type is one of the unsigned integer types.
pub fn is_uint(ty: &VarType) -> (r: bool)
    ensures
        r == (spec_uint_max(*ty) is Some),
{
    match ty {
        VarType::Uint(_) => true,
        _ => false,
    }
}

/// The maximum value a local of declared type `ty` can hold, when `ty` is an
/// unsigned integer type.
pub fn get_uint_max(ty: &VarType) -> (r: Option<ethnum::U256>)
    ensures
        omax(r) == spec_uint_max(*ty),
{
    match ty {
        VarType::Uint(w) => {
            let m = match w {
                Width::W8 => u256_from_limbs(0xff, 0),
                Width::W16 => u256_from_limbs(0xffff, 0),
                Width::W32 => u256_from_limbs(0xffff_ffff, 0),
                Width::W64 => u256_from_limbs(0xffff_ffff_ffff_ffff, 0),
                Width::W128 => u256_from_limbs(0xffff_ffff_ffff_ffff_ffff_ffff_ffff_ffff, 0),
                Width::W256 => u256_from_limbs(
                    0xffff_ffff_ffff_ffff_ffff_ffff_ffff_ffff,
                    0xffff_ffff_ffff_ffff_ffff_ffff_ffff_ffff,
                ),
            };
            proof {
                assert(u256_span() == 0x1_0000_0000_0000_0000_0000_0000_0000_0000nat
                    * 0x1_0000_0000_0000_0000_0000_0000_0000_0000nat);
            }
            Option::Some(m)
        },
        _ => Option::None,
    }
}

/// The exact value of an integer literal, as a 256-bit bound.
pub fn get_uint_constant(constant: &ConstVal) -> (r: Option<ethnum::U256>)
    ensures
        omax(r) == spec_uint_constant(*constant),
{
    match constant {
        ConstVal::Uint(_, v) => Option::Some(*v),
        _ => Option::None,
    }
}

/// The smaller of two present bounds; absence of either is a contract
/// violation on the caller's side.
pub fn get_min_uint(u1: Option<ethnum::U256>, u2: Option<ethnum::U256>) -> (r: Option<ethnum::U256>)
    requires
        u1 is Some,
        u2 is Some,
    ensures
        r is Some,
        u256_val(r.unwrap()) == spec_min(u256_val(u1.unwrap()), u256_val(u2.unwrap())),
{
    let a = u1.unwrap();
    let b = u2.unwrap();
    Option::Some(u256_min(a, b))
}

/// Combines two operand bounds under a binary numeric operation, clamping
/// overflow at the destination width's maximum, exactly as `spec_binop` says.
pub fn binary_operation_max(
    oper: Op,
    u1: Option<ethnum::U256>,
    u2: Option<ethnum::U256>,
    c1: bool,
    c2: bool,
    ty: &VarType,
) -> (r: (Option<ethnum::U256>, bool))
    requires
        is_numeric_binop(oper),
        u1 is Some,
        u2 is Some,
        is_clamped_binop(oper) ==> spec_uint_max(*ty) is Some,
        oper == Op::Mod ==> u256_val(u2.unwrap()) > 0,
        (oper == Op::Sub && c1 && c2) ==> u256_val(u1.unwrap()) >= u256_val(u2.unwrap()),
    ensures
        r.0 is Some,
        u256_val(r.0.unwrap()) == spec_binop(
            oper,
            u256_val(u1.unwrap()),
            u256_val(u2.unwrap()),
            c1,
            c2,
            spec_uint_max(*ty),
        ).0,
        r.1 == spec_binop(
            oper,
            u256_val(u1.unwrap()),
            u256_val(u2.unwrap()),
            c1,
            c2,
            spec_uint_max(*ty),
        ).1,
{
    let a = u1.unwrap();
    let b = u2.unwrap();
    match oper {
        Op::Mod => {
            if c1 && c2 {
                let rem = a.checked_rem(b).unwrap();
                (Option::Some(rem), true)
            } else if u256_lt(&a, &b) {
                (Option::Some(a), c1)
            } else {
                let one = crate::u256::u256_from_u128(1);
                let d = b.checked_sub(one).unwrap();
                (Option::Some(d), false)
            }
        },
        Op::Sub => {
            if c1 && c2 {
                (Option::Some(a.checked_sub(b).unwrap()), true)
            } else if c2 && !u256_lt(&a, &b) {
                (Option::Some(a.checked_sub(b).unwrap()), false)
            } else {
                (Option::Some(a), false)
            }
        },
        Op::Add | Op::BitAnd | Op::BitOr | Op::Xor => {
            let (u, flag) = a.overflowing_add(b);
            let m = get_uint_max(ty).unwrap();
            proof {
                match *ty {
                    VarType::Uint(w) => lemma_width_max_lt_span(w),
                    _ => (),
                }
            }
            if flag {
                (Option::Some(m), c1 && c2)
            } else {
                (Option::Some(u256_min(u, m)), c1 && c2)
            }
        },
        Op::Mul => {
            let (u, flag) = a.overflowing_mul(b);
            let m = get_uint_max(ty).unwrap();
            proof {
                match *ty {
                    VarType::Uint(w) => lemma_width_max_lt_span(w),
                    _ => (),
                }
            }
            if flag {
                (Option::Some(m), c1 && c2)
            } else {
                (Option::Some(u256_min(u, m)), c1 && c2)
            }
        },
        Op::Div | Op::Shr => (Option::Some(a), false),
        Op::Shl => {
            let sh = u256_low_u32(&b);
            (Option::Some(a.wrapping_shl(sh)), false)
        },
        _ => {
            proof {
                assert(!is_numeric_binop(oper));
            }
            (Option::Some(a), false)
        },
    }
}

/// A clamped operator's result bound never exceeds the destination width's
/// maximum: overflow is cut off at the declared type, not reported upward.
pub proof fn lemma_clamped_result_bounded(op: Op, v1: nat, v2: nat, c1: bool, c2: bool, m: nat)
    requires
        is_clamped_binop(op),
    ensures
        spec_binop(op, v1, v2, c1, c2, Option::Some(m)).0 <= m,
{
}

/// A modulo result is always strictly below the right operand's bound when the
/// right operand is not a known constant.
pub proof fn lemma_mod_below_right(op: Op, v1: nat, v2: nat, c1: bool, tymax: Option<nat>)
    requires
        op == Op::Mod,
        v2 > 0,
    ensures
        spec_binop(op, v1, v2, c1, false, tymax).0 < v2,
{
}

} // verus!
