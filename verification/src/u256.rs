//! Exact 256-bit unsigned arithmetic for bound values, on top of `ethnum::U256`.
//!
//! `ethnum::U256` is a pair of `u128` limbs; on little-endian targets the low
//! limb is stored first, so the numeric value of `v` is
//! `v.0[0] + v.0[1] * 2^128`. Comparisons and conversions are implemented here
//! directly over the limbs and verified; the wrapping/checked arithmetic of
//! `ethnum` is relied on through `assume_specification` items below.

use vstd::prelude::*;
use vstd::arithmetic::power2::pow2;

verus! {

#[verifier::external_type_specification]
pub struct ExU256(ethnum::U256);

/// 2^128, the weight of the high limb.
pub open spec fn limb_base() -> nat {
    0x1_0000_0000_0000_0000_0000_0000_0000_0000nat
}

/// 2^256, the span of the whole 256-bit container.
pub open spec fn u256_span() -> nat {
    limb_base() * limb_base()
}

/// The numeric value of a `U256` (low limb first on little-endian targets).
pub open spec fn u256_val(v: ethnum::U256) -> nat {
    (v.0[0] + v.0[1] * limb_base()) as nat
}

/// Relies on ethnum::U256::overflowing_add: 256-bit sum with a carry-out flag.
pub assume_specification[ ethnum::U256::overflowing_add ](
    a: ethnum::U256,
    b: ethnum::U256,
) -> (r: (ethnum::U256, bool))
    ensures
        r.1 == (u256_val(a) + u256_val(b) >= u256_span()),
        !r.1 ==> u256_val(r.0) == u256_val(a) + u256_val(b),
;

/// Relies on ethnum::U256::overflowing_mul: 256-bit product with an overflow flag.
pub assume_specification[ ethnum::U256::overflowing_mul ](
    a: ethnum::U256,
    b: ethnum::U256,
) -> (r: (ethnum::U256, bool))
    ensures
        r.1 == (u256_val(a) * u256_val(b) >= u256_span()),
        !r.1 ==> u256_val(r.0) == u256_val(a) * u256_val(b),
;

/// Relies on ethnum::U256::checked_sub: exact difference, `None` on underflow.
pub assume_specification[ ethnum::U256::checked_sub ](
    a: ethnum::U256,
    b: ethnum::U256,
) -> (r: Option<ethnum::U256>)
    ensures
        r is Some <==> u256_val(a) >= u256_val(b),
        r is Some ==> u256_val(r.unwrap()) == u256_val(a) - u256_val(b),
;

/// Relies on ethnum::U256::checked_rem: exact remainder, `None` for a zero divisor.
pub assume_specification[ ethnum::U256::checked_rem ](
    a: ethnum::U256,
    b: ethnum::U256,
) -> (r: Option<ethnum::U256>)
    ensures
        r is Some <==> u256_val(b) != 0,
        r is Some ==> u256_val(r.unwrap()) == u256_val(a) % u256_val(b),
;

/// Relies on ethnum::U256::wrapping_shl: shifts left by `rhs & 0xff`, dropping
/// bits that leave the 256-bit container.
pub assume_specification[ ethnum::U256::wrapping_shl ](
    a: ethnum::U256,
    rhs: u32,
) -> (r: ethnum::U256)
    ensures
        u256_val(r) == (u256_val(a) * pow2((rhs % 256) as nat)) % u256_span(),
;

pub fn u256_from_u128(x: u128) -> (r: ethnum::U256)
    ensures
        u256_val(r) == x as nat,
{
    ethnum::U256([x, 0])
}

pub fn u256_from_limbs(lo: u128, hi: u128) -> (r: ethnum::U256)
    ensures
        u256_val(r) == lo + hi * limb_base(),
{
    ethnum::U256([lo, hi])
}

pub fn u256_lt(a: &ethnum::U256, b: &ethnum::U256) -> (r: bool)
    ensures
        r == (u256_val(*a) < u256_val(*b)),
{
    a.0[1] < b.0[1] || (a.0[1] == b.0[1] && a.0[0] < b.0[0])
}

/// The smaller of two bound values.
pub fn u256_min(a: ethnum::U256, b: ethnum::U256) -> (r: ethnum::U256)
    ensures
        u256_val(r) == if u256_val(a) <= u256_val(b) {
            u256_val(a)
        } else {
            u256_val(b)
        },
{
    if u256_lt(&b, &a) {
        b
    } else {
        a
    }
}

/// The value truncated to 32 bits, as `ethnum`'s `as_u32` cast produces it.
pub fn u256_low_u32(v: &ethnum::U256) -> (r: u32)
    ensures
        r == u256_val(*v) % 0x1_0000_0000,
{
    proof {
        vstd::arithmetic::div_mod::lemma_mod_multiples_vanish(
            v.0[1] as int * 0x1_0000_0000_0000_0000_0000_0000int,
            v.0[0] as int,
            0x1_0000_0000,
        );
        assert(v.0[1] * limb_base() == 0x1_0000_0000int * (v.0[1] as int
            * 0x1_0000_0000_0000_0000_0000_0000int));
        assert(v.0[0] as int % 0x1_0000_0000int == u256_val(*v) as int % 0x1_0000_0000int);
    }
    let low: u128 = v.0[0] % 0x1_0000_0000;
    low as u32
}

/// The character of one decimal digit.
pub open spec fn dec_digit(d: nat) -> char {
    if d == 0 {
        '0'
    } else if d == 1 {
        '1'
    } else if d == 2 {
        '2'
    } else if d == 3 {
        '3'
    } else if d == 4 {
        '4'
    } else if d == 5 {
        '5'
    } else if d == 6 {
        '6'
    } else if d == 7 {
        '7'
    } else if d == 8 {
        '8'
    } else {
        '9'
    }
}

/// The decimal rendering of `n`, most significant digit first.
pub open spec fn dec_str(n: nat) -> Seq<char>
    decreases n,
{
    if n < 10 {
        seq![dec_digit(n)]
    } else {
        dec_str(n / 10).push(dec_digit(n % 10))
    }
}

/// Relies on ethnum's `Display` for `U256`: the plain decimal rendering of the
/// value, most significant digit first, no leading zeros.
#[verifier::external_body]
pub fn u256_to_string(v: &ethnum::U256) -> (r: String)
    ensures
        r@ == dec_str(u256_val(*v)),
{
    format!("{}", v)
}

} // verus!
