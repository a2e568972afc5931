use vstd::prelude::*;

verus! {

/// The order of the base field: `2^64 - 2^32 + 1`.
pub const FIELD_ORDER: u64 = 0xffff_ffff_0000_0001;

/// A value is a canonical field element when it is reduced below the order.
pub open spec fn is_field(x: u64) -> bool {
    x < FIELD_ORDER
}

/// Field multiplication on canonical representatives.
pub open spec fn mul_spec(a: u64, b: u64) -> u64 {
    ((a as int * b as int) % (FIELD_ORDER as int)) as u64
}

/// Exponentiation by squaring, the form in which the field computes powers.
pub open spec fn pow_spec(b: u64, e: u64) -> u64
    decreases e,
{
    if e == 0 {
        1
    } else {
        let h = pow_spec(b, e / 2);
        let sq = mul_spec(h, h);
        if e % 2 == 0 {
            sq
        } else {
            mul_spec(b, sq)
        }
    }
}

/// The multiplicative inverse of a nonzero element, by Fermat's little theorem: `x^(p-2)`.
pub open spec fn inverse_spec(x: u64) -> u64 {
    pow_spec(x, (FIELD_ORDER - 2) as u64)
}

/// Multiplies two field elements.
pub fn field_mul(a: u64, b: u64) -> (r: u64)
    requires
        is_field(a),
        is_field(b),
    ensures
        r == mul_spec(a, b),
        is_field(r),
{
    let p: u128 = FIELD_ORDER as u128;
    proof {
        assert((a as u128) * (b as u128) <= 0xffff_ffff_ffff_ffffu128 * 0xffff_ffff_ffff_ffffu128)
            by (nonlinear_arith)
            requires
                a < 0x1_0000_0000_0000_0000u128,
                b < 0x1_0000_0000_0000_0000u128,
        ;
    }
    let prod: u128 = (a as u128) * (b as u128);
    let r: u128 = prod % p;
    r as u64
}

/// Raises `b` to the power `e`.
pub fn pow(b: u64, e: u64) -> (r: u64)
    requires
        is_field(b),
    ensures
        r == pow_spec(b, e),
        is_field(r),
    decreases e,
{
    if e == 0 {
        1
    } else {
        let h = pow(b, e / 2);
        let sq = field_mul(h, h);
        if e % 2 == 0 {
            sq
        } else {
            field_mul(b, sq)
        }
    }
}

/// The inverse of a nonzero field element.
pub fn inverse(x: u64) -> (r: u64)
    requires
        is_field(x),
    ensures
        r == inverse_spec(x),
        is_field(r),
{
    pow(x, FIELD_ORDER - 2)
}

} // verus!
