//! Integer grid coordinates and the Euclidean split of a global coordinate
//! into a chunk coordinate and a coordinate local to that chunk.

use vstd::prelude::*;

verus! {

/// A point or offset on the integer grid.
#[derive(Clone, Copy, Debug, PartialEq, Eq, Hash, Structural)]
pub struct IVec3 {
    pub x: i32,
    pub y: i32,
    pub z: i32,
}

impl IVec3 {
    pub fn new(x: i32, y: i32, z: i32) -> (v: IVec3)
        ensures
            v == (IVec3 { x, y, z }),
    {
        IVec3 { x, y, z }
    }
}

/// Quotient of the division that rounds towards negative infinity.
pub open spec fn floor_div(a: int, s: int) -> int {
    a / s
}

/// Remainder that goes with [`floor_div`]; never negative for a positive `s`.
pub open spec fn euclid_mod(a: int, s: int) -> int {
    a % s
}

/// For a positive divisor the pair `(floor_div, euclid_mod)` is the one
/// decomposition `a == q * s + r` whose remainder lies in `[0, s)`. A
/// truncating division would yield a negative remainder for negative `a`.
pub proof fn lemma_split_characterised(a: int, s: int, q: int, r: int)
    requires
        s > 0,
    ensures
        (a == q * s + r && 0 <= r < s) <==> (q == floor_div(a, s) && r == euclid_mod(a, s)),
{
    vstd::arithmetic::div_mod::lemma_fundamental_div_mod(a, s);
    vstd::arithmetic::div_mod::lemma_mod_bound(a, s);
    if a == q * s + r && 0 <= r < s {
        vstd::arithmetic::div_mod::lemma_fundamental_div_mod_converse(a, s, q, r);
    }
    assert(s * (a / s) == (a / s) * s) by (nonlinear_arith);
}

/// Splits `a` by the positive size `s` into quotient and remainder of the
/// Euclidean division.
pub fn split_coordinate(a: i64, s: i64) -> (qr: (i64, i64))
    requires
        s > 0,
    ensures
        qr.0 == floor_div(a as int, s as int),
        qr.1 == euclid_mod(a as int, s as int),
        0 <= qr.1 < s,
{
    proof {
        lemma_split_characterised(a as int, s as int, a as int / s as int, a as int % s as int);
        lemma_quotient_no_farther_than_dividend(a as int, s as int);
    }
    let q = a.checked_div_euclid(s);
    let r = a.checked_rem_euclid(s);
    (q.unwrap(), r.unwrap())
}

/// Dividing by a positive number never moves a value away from zero.
proof fn lemma_quotient_no_farther_than_dividend(a: int, s: int)
    requires
        s > 0,
    ensures
        a >= 0 ==> 0 <= a / s <= a,
        a < 0 ==> a <= a / s < 0,
{
    vstd::arithmetic::div_mod::lemma_fundamental_div_mod(a, s);
    vstd::arithmetic::div_mod::lemma_mod_bound(a, s);
    let q = a / s;
    let r = a % s;
    assert(a == s * q + r);
    if a >= 0 {
        assert(0 <= q <= a) by (nonlinear_arith)
            requires a == s * q + r, 0 <= r < s, s > 0, a >= 0;
    } else {
        assert(a <= q < 0) by (nonlinear_arith)
            requires a == s * q + r, 0 <= r < s, s > 0, a < 0;
    }
}

} // verus!
